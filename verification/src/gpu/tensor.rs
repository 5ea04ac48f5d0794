//! Device tensors as descriptions: a buffer, a byte offset and a shape.

use vstd::prelude::*;

use crate::error::{Detail, Error, ErrorView, Fault};
use crate::text;

verus! {

/// A storage binding's offset must be a multiple of this many bytes.
pub const BINDING_OFFSET_ALIGNMENT: u64 = 32;

/// Elements of a shape: the product of its axes, 1 for the empty shape.
pub open spec fn elements(shape: Seq<usize>) -> nat
    decreases shape.len(),
{
    if shape.len() == 0 {
        1
    } else {
        elements(shape.drop_last()) * shape.last() as nat
    }
}

/// Whether a shape's elements can be counted in a machine word, axis by axis.
pub open spec fn countable(shape: Seq<usize>) -> bool {
    forall|k: int| 0 <= k <= shape.len() ==> #[trigger] elements(shape.take(k)) <= usize::MAX
}

/// One more axis multiplies the elements by its length.
pub proof fn lemma_elements_push(shape: Seq<usize>, axis: usize)
    ensures
        elements(shape.push(axis)) == elements(shape) * axis,
{
    assert(shape.push(axis).drop_last() =~= shape);
}

/// A countable shape stays countable under one more axis that keeps its elements in
/// a machine word.
pub proof fn lemma_countable_push(shape: Seq<usize>, axis: usize)
    requires
        countable(shape),
        elements(shape) * axis <= usize::MAX,
    ensures
        countable(shape.push(axis)),
{
    let longer = shape.push(axis);
    lemma_elements_push(shape, axis);
    assert forall|k: int| 0 <= k <= longer.len() implies #[trigger] elements(longer.take(k))
        <= usize::MAX by {
        if k == longer.len() {
            assert(longer.take(k) =~= longer);
        } else {
            assert(longer.take(k) =~= shape.take(k));
        }
    }
}

/// The elements of a one-axis shape.
pub proof fn lemma_axes_1(shape: Seq<usize>)
    requires
        shape.len() == 1,
    ensures
        elements(shape) == shape[0],
        countable(shape),
{
    let none = Seq::<usize>::empty();
    assert(countable(none)) by {
        assert forall|k: int| 0 <= k <= none.len() implies #[trigger] elements(none.take(k))
            <= usize::MAX by {
            assert(none.take(k) =~= none);
        }
    }
    assert(shape =~= none.push(shape[0]));
    lemma_elements_push(none, shape[0]);
    assert(1 * shape[0] == shape[0]);
    lemma_countable_push(none, shape[0]);
}

/// The elements of a two-axis shape.
pub proof fn lemma_axes_2(shape: Seq<usize>)
    requires
        shape.len() == 2,
    ensures
        elements(shape) == shape[0] * shape[1],
        shape[0] * shape[1] <= usize::MAX ==> countable(shape),
{
    let head = shape.drop_last();
    assert(shape =~= head.push(shape[1]));
    lemma_axes_1(head);
    lemma_elements_push(head, shape[1]);
    if shape[0] * shape[1] <= usize::MAX {
        lemma_countable_push(head, shape[1]);
    }
}

/// The elements of a three-axis shape.
pub proof fn lemma_axes_3(shape: Seq<usize>)
    requires
        shape.len() == 3,
    ensures
        elements(shape) == shape[0] * shape[1] * shape[2],
        shape[0] * shape[1] <= usize::MAX && shape[0] * shape[1] * shape[2] <= usize::MAX
            ==> countable(shape),
{
    let head = shape.drop_last();
    assert(shape =~= head.push(shape[2]));
    lemma_axes_2(head);
    lemma_elements_push(head, shape[2]);
    if shape[0] * shape[1] <= usize::MAX && shape[0] * shape[1] * shape[2] <= usize::MAX {
        lemma_countable_push(head, shape[2]);
    }
}

/// The elements of a four-axis shape.
pub proof fn lemma_axes_4(shape: Seq<usize>)
    requires
        shape.len() == 4,
    ensures
        elements(shape) == shape[0] * shape[1] * shape[2] * shape[3],
        shape[0] * shape[1] <= usize::MAX && shape[0] * shape[1] * shape[2] <= usize::MAX
            && shape[0] * shape[1] * shape[2] * shape[3] <= usize::MAX ==> countable(shape),
{
    let head = shape.drop_last();
    assert(shape =~= head.push(shape[3]));
    lemma_axes_3(head);
    lemma_elements_push(head, shape[3]);
    if shape[0] * shape[1] <= usize::MAX && shape[0] * shape[1] * shape[2] <= usize::MAX
        && shape[0] * shape[1] * shape[2] * shape[3] <= usize::MAX {
        lemma_countable_push(head, shape[3]);
    }
}

/// The product of a shape's axes.
pub fn elements_of(shape: &Vec<usize>) -> (r: usize)
    requires
        countable(shape@),
    ensures
        r == elements(shape@),
{
    let mut product: usize = 1;
    let mut i: usize = 0;
    while i < shape.len()
        invariant
            i <= shape@.len(),
            countable(shape@),
            product == elements(shape@.take(i as int)),
        decreases shape@.len() - i,
    {
        proof {
            let next = shape@.take(i as int + 1);
            assert(next.drop_last() =~= shape@.take(i as int));
            assert(next.last() == shape@[i as int]);
            assert(elements(next) <= usize::MAX);
        }
        product = product * shape[i];
        i += 1;
    }
    assert(shape@.take(i as int) =~= shape@);
    product
}

/// A buffer's number: the plan that asks for it and the place of its command there.
#[derive(Debug, Clone, Copy, PartialEq, Eq, Structural)]
pub struct BufferId {
    pub plan: u32,
    pub index: usize,
}

/// A tensor's description.
#[verifier::ext_equal]
pub struct TensorView {
    pub buffer: BufferId,
    pub offset: u64,
    pub shape: Seq<usize>,
}

impl TensorView {
    pub open spec fn len(self) -> nat {
        elements(self.shape)
    }

    /// The bytes it spans.
    pub open spec fn bytes(self) -> nat {
        4 * self.len()
    }
}

/// A row-major run of 32-bit elements in a device buffer.
#[derive(Debug)]
pub struct DevTensor {
    pub buffer: BufferId,
    /// Where the run starts, in bytes.
    pub offset: u64,
    pub shape: Vec<usize>,
}

impl View for DevTensor {
    type V = TensorView;

    open spec fn view(&self) -> TensorView {
        TensorView { buffer: self.buffer, offset: self.offset, shape: self.shape@ }
    }
}

impl Clone for DevTensor {
    fn clone(&self) -> (r: Self)
        ensures
            r@ == self@,
    {
        let shape = self.shape.clone();
        assert(shape@ =~= self.shape@);
        DevTensor { buffer: self.buffer, offset: self.offset, shape }
    }
}

impl DevTensor {
    /// Its elements can be counted and its bytes addressed.
    pub open spec fn wf(&self) -> bool {
        &&& countable(self.shape@)
        &&& self@.bytes() <= usize::MAX
        &&& self.offset + self@.bytes() <= u64::MAX
    }

    pub fn len(&self) -> (r: usize)
        requires
            self.wf(),
        ensures
            r == self@.len(),
    {
        elements_of(&self.shape)
    }

    pub fn is_empty(&self) -> (r: bool)
        requires
            self.wf(),
        ensures
            r == (self@.len() == 0),
    {
        self.len() == 0
    }

    /// The bytes it spans.
    pub fn byte_len(&self) -> (r: u64)
        requires
            self.wf(),
        ensures
            r == self@.bytes(),
    {
        (self.len() * 4) as u64
    }

    /// The leading axis; 1 for a vector.
    pub fn rows(&self) -> (r: usize)
        ensures
            r == (if self.shape@.len() <= 1 {
                1
            } else {
                self.shape@[0]
            }),
    {
        if self.shape.len() <= 1 {
            1
        } else {
            self.shape[0]
        }
    }

    /// The trailing axis, the one a row-wise kernel walks.
    pub fn cols(&self) -> (r: usize)
        ensures
            r == (if self.shape@.len() == 0 {
                1
            } else {
                self.shape@.last()
            }),
    {
        if self.shape.len() == 0 {
            1
        } else {
            self.shape[self.shape.len() - 1]
        }
    }

    /// The same run under another shape of the same length.
    pub fn with_shape(&self, shape: Vec<usize>) -> (r: Result<Self, Error>)
        requires
            self.wf(),
            countable(shape@),
        ensures
            match r {
                Ok(t) => {
                    &&& elements(shape@) == self@.len()
                    &&& t@ == (TensorView { shape: shape@, ..self@ })
                    &&& t.wf()
                },
                Err(e) => {
                    &&& elements(shape@) != self@.len()
                    &&& e@ == ErrorView::ShapeOf(reshape_fault(self@.shape, shape@))
                },
            },
    {
        let len: usize = elements_of(&shape);
        let own: usize = self.len();
        if len != own {
            return Err(Error::ShapeOf(reshape_fault_of(&self.shape, &shape)));
        }
        Ok(DevTensor { buffer: self.buffer, offset: self.offset, shape })
    }

    /// Whether the axes are exactly these three.
    pub fn is_3d(&self, a: usize, b: usize, c: usize) -> (r: bool)
        ensures
            r == (self@.shape == seq![a, b, c]),
    {
        let r = self.shape.len() == 3 && self.shape[0] == a && self.shape[1] == b && self.shape[2]
            == c;
        proof {
            if r {
                assert(self.shape@ =~= seq![a, b, c]);
            } else if self.shape@ == seq![a, b, c] {
                assert(self.shape@.len() == 3);
                assert(self.shape@[0] == a && self.shape@[1] == b && self.shape@[2] == c);
            }
        }
        r
    }

    /// Whether the axes are exactly these four.
    pub fn is_4d(&self, a: usize, b: usize, c: usize, d: usize) -> (r: bool)
        ensures
            r == (self@.shape == seq![a, b, c, d]),
    {
        let r = self.shape.len() == 4 && self.shape[0] == a && self.shape[1] == b && self.shape[2]
            == c && self.shape[3] == d;
        proof {
            if r {
                assert(self.shape@ =~= seq![a, b, c, d]);
            } else if self.shape@ == seq![a, b, c, d] {
                assert(self.shape@.len() == 4);
                assert(self.shape@[0] == a && self.shape@[1] == b);
                assert(self.shape@[2] == c && self.shape@[3] == d);
            }
        }
        r
    }

    /// What [`DevTensor::slice`] gives: a window that stays inside its parent and
    /// starts on a bindable offset.
    pub open spec fn slice_spec(t: TensorView, start: nat, shape: Seq<usize>) -> Result<
        TensorView,
        ErrorView,
    > {
        let len = elements(shape);
        let byte = t.offset + 4 * start;
        if start + len > t.len() {
            Err(
                Error::Shape(
                    Fault::SliceEnd {
                        start: start as usize,
                        end: (start + len) as usize,
                        len: t.len() as usize,
                    },
                ),
            )
        } else if byte % BINDING_OFFSET_ALIGNMENT as int != 0 {
            Err(
                Error::ShapeOf(
                    Detail::SliceAlignment {
                        element: start as usize,
                        base: t.offset,
                        byte: byte as u64,
                        shape: text::listed(shape),
                        parent: text::listed(t.shape),
                        len: t.len() as usize,
                    },
                ),
            )
        } else {
            Ok(TensorView { buffer: t.buffer, offset: byte as u64, shape })
        }
    }

    /// A window of `shape` elements from `offset_elements` on, in the same buffer.
    pub fn slice(&self, offset_elements: usize, shape: Vec<usize>) -> (r: Result<Self, Error>)
        requires
            self.wf(),
            countable(shape@),
            offset_elements + elements(shape@) <= usize::MAX,
        ensures
            match r {
                Ok(t) => {
                    &&& Self::slice_spec(self@, offset_elements as nat, shape@) == Ok::<
                        TensorView,
                        ErrorView,
                    >(t@)
                    &&& t.wf()
                    &&& t.offset + t@.bytes() <= self.offset + self@.bytes()
                },
                Err(e) => Self::slice_spec(self@, offset_elements as nat, shape@) == Err::<
                    TensorView,
                    ErrorView,
                >(e@),
            },
    {
        let len: usize = elements_of(&shape);
        let own: usize = self.len();
        if offset_elements + len > own {
            return Err(
                Error::Shape(
                    Fault::SliceEnd {
                        start: offset_elements,
                        end: offset_elements + len,
                        len: own,
                    },
                ),
            );
        }
        let offset: u64 = self.offset + (offset_elements * 4) as u64;
        if offset % BINDING_OFFSET_ALIGNMENT != 0 {
            return Err(
                Error::ShapeOf(
                    Detail::SliceAlignment {
                        element: offset_elements,
                        base: self.offset,
                        byte: offset,
                        shape: text::list_text(&shape),
                        parent: text::list_text(&self.shape),
                        len: own,
                    },
                ),
            );
        }
        Ok(DevTensor { buffer: self.buffer, offset, shape })
    }
}

/// Why a tensor of one shape cannot take the other.
pub open spec fn reshape_fault(from: Seq<usize>, to: Seq<usize>) -> Detail<Seq<char>> {
    Detail::Reshape { from: text::listed(from), to: text::listed(to) }
}

/// Why a tensor of one shape cannot take the other.
pub fn reshape_fault_of(from: &Vec<usize>, to: &Vec<usize>) -> (r: Detail)
    ensures
        r@ == reshape_fault(from@, to@),
{
    Detail::Reshape { from: text::list_text(from), to: text::list_text(to) }
}

/// A slice never leaves its parent, and always starts where a binding may.
pub proof fn law_slices_stay_inside(t: TensorView, start: nat, shape: Seq<usize>)
    requires
        t.offset + t.bytes() <= u64::MAX,
    ensures
        DevTensor::slice_spec(t, start, shape) matches Ok(s) ==> {
            &&& s.buffer == t.buffer
            &&& s.offset == t.offset + 4 * start
            &&& t.offset <= s.offset
            &&& s.offset + s.bytes() <= t.offset + t.bytes()
            &&& s.offset % BINDING_OFFSET_ALIGNMENT == 0
        },
{
}

/// Slicing a slice is slicing the parent once, further on.
pub proof fn law_slices_compose(
    t: TensorView,
    outer: nat,
    middle: Seq<usize>,
    inner: nat,
    shape: Seq<usize>,
)
    requires
        t.offset + t.bytes() <= u64::MAX,
        DevTensor::slice_spec(t, outer, middle) is Ok,
        DevTensor::slice_spec(DevTensor::slice_spec(t, outer, middle)->Ok_0, inner, shape) is Ok,
    ensures
        DevTensor::slice_spec(t, outer + inner, shape) == DevTensor::slice_spec(
            DevTensor::slice_spec(t, outer, middle)->Ok_0,
            inner,
            shape,
        ),
{
}

/// How many elements a shape has, if they can be counted axis by axis.
pub fn count_of(shape: &Vec<usize>) -> (r: Option<usize>)
    ensures
        match r {
            Some(n) => countable(shape@) && n == elements(shape@),
            None => !countable(shape@),
        },
{
    let mut n: usize = 1;
    let mut i: usize = 0;
    assert(shape@.take(0) =~= Seq::<usize>::empty());
    while i < shape.len()
        invariant
            i <= shape@.len(),
            n == elements(shape@.take(i as int)),
            forall|k: int|
                0 <= k <= i ==> #[trigger] elements(shape@.take(k)) <= usize::MAX,
        decreases shape@.len() - i,
    {
        proof {
            let next = shape@.take(i as int + 1);
            assert(next.drop_last() =~= shape@.take(i as int));
            assert(next.last() == shape@[i as int]);
        }
        match n.checked_mul(shape[i]) {
            Some(more) => {
                n = more;
            },
            None => {
                assert(elements(shape@.take(i as int + 1)) > usize::MAX);
                return None;
            },
        }
        i += 1;
    }
    assert(shape@.take(i as int) =~= shape@);
    Some(n)
}

} // verus!
