//! Reader for the `safetensors` format.
//!
//! A file is a little-endian 64-bit header length, a JSON header, then the data. Each
//! entry of the header but the reserved `__metadata__` is a tensor: its element type,
//! its shape, and where its data begins and ends, counted from the data's start. The
//! checkpoints keep the model's configuration in `__metadata__`, so it is handed on.

use vstd::prelude::*;
use vstd::string::*;

use ndarray::{ArrayD, IxDyn};
use serde_json::Value;

use crate::error::{Detail, Error, ErrorView, Fault};
use crate::gpu::tensor;
use crate::numbers;
use crate::numbers::Element;
use crate::text;

verus! {

// ------------------------------------------------------------------- the header

/// What a member of a header's entry stands for.
#[verifier::ext_equal]
pub enum FieldView {
    Text(Seq<char>),
    List(Seq<Option<u64>>),
    Other,
}

/// A member of a header's entry: a text, a list, or something else. An item of a list
/// counts where it is a non-negative integer of 64 bits.
#[derive(Debug)]
pub enum Field {
    Text(String),
    List(Vec<Option<u64>>),
    Other,
}

impl View for Field {
    type V = FieldView;

    open spec fn view(&self) -> FieldView {
        match self {
            Field::Text(t) => FieldView::Text(t@),
            Field::List(l) => FieldView::List(l@),
            Field::Other => FieldView::Other,
        }
    }
}

/// One entry of a header: its name and, where it is an object, its members.
pub type EntryView = (Seq<char>, Option<Seq<(Seq<char>, FieldView)>>);

/// One entry of a header.
#[derive(Debug)]
pub struct Entry {
    pub name: String,
    pub members: Option<Vec<(String, Field)>>,
}

pub open spec fn members_view(members: Seq<(String, Field)>) -> Seq<(Seq<char>, FieldView)> {
    Seq::new(members.len(), |i: int| (members[i].0@, members[i].1@))
}

impl View for Entry {
    type V = EntryView;

    open spec fn view(&self) -> EntryView {
        (
            self.name@,
            match self.members {
                Some(m) => Some(members_view(m@)),
                None => None,
            },
        )
    }
}

pub open spec fn entries_view(entries: Seq<Entry>) -> Seq<EntryView> {
    Seq::new(entries.len(), |i: int| entries[i]@)
}

/// The document that bytes hold as JSON, as far as a header's readers look into it: the
/// entries, where the document is an object; the error's sentence where they are no JSON.
pub uninterp spec fn json_header(bytes: Seq<u8>) -> Result<Option<Seq<EntryView>>, Seq<char>>;

/// Parses a header by calling `serde_json::from_slice`. The claim: the result, its
/// error's sentence included, is a function of the bytes alone, [`json_header`].
#[verifier::external_body]
fn parse_header(bytes: &[u8]) -> (r: Result<Option<Vec<Entry>>, String>)
    ensures
        match r {
            Ok(Some(entries)) => json_header(bytes@) == Ok::<Option<Seq<EntryView>>, Seq<char>>(
                Some(entries_view(entries@)),
            ),
            Ok(None) => json_header(bytes@) == Ok::<Option<Seq<EntryView>>, Seq<char>>(None),
            Err(reason) => json_header(bytes@) == Err::<Option<Seq<EntryView>>, Seq<char>>(
                reason@,
            ),
        },
{
    let fields = |map: serde_json::Map<String, Value>| map.into_iter().map(|(key, value)| (key, match value {
        Value::String(text) => Field::Text(text),
        Value::Array(items) => Field::List(items.iter().map(Value::as_u64).collect()),
        _ => Field::Other,
    })).collect();
    serde_json::from_slice(bytes).map_err(|error| error.to_string()).map(|document| match document {
        Value::Object(map) => Some(map.into_iter().map(|(name, value)| Entry { name, members: match value {
            Value::Object(inner) => Some(fields(inner)),
            _ => None,
        } }).collect()),
        _ => None,
    })
}

// -------------------------------------------------------------------- the tensors

/// What a tensor stands for.
#[verifier::ext_equal]
pub struct TensorData {
    pub shape: Seq<usize>,
    pub words: Seq<u32>,
}

/// A tensor of 32-bit floats, as bits, row-major.
#[derive(Debug, Clone)]
pub struct Tensor {
    pub shape: Vec<usize>,
    pub words: Vec<u32>,
}

impl View for Tensor {
    type V = TensorData;

    open spec fn view(&self) -> TensorData {
        TensorData { shape: self.shape@, words: self.words@ }
    }
}

/// What an error stands for.
#[verifier::ext_equal]
pub struct CheckpointFault {
    pub name: Option<Seq<char>>,
    pub fault: ErrorView,
}

/// Why a file cannot be read, and at which tensor.
#[derive(Debug)]
pub struct CheckpointError {
    pub name: Option<String>,
    pub fault: Error,
}

impl View for CheckpointError {
    type V = CheckpointFault;

    open spec fn view(&self) -> CheckpointFault {
        CheckpointFault {
            name: match self.name {
                Some(n) => Some(n@),
                None => None,
            },
            fault: self.fault@,
        }
    }
}

impl CheckpointError {
    /// The sentence of an error, the tensor in front.
    pub fn message(&self) -> (r: String)
        ensures
            r@ == match self@.name {
                Some(n) => n + ": "@ + self@.fault.sentence(),
                None => self@.fault.sentence(),
            },
    {
        let sentence = self.fault.message();
        match &self.name {
            Some(name) => {
                let head = text::concat(name.as_str(), ": ");
                text::concat(head.as_str(), sentence.as_str())
            },
            None => sentence,
        }
    }
}

/// The element type a name stands for.
pub open spec fn element_named(dtype: Seq<char>) -> Option<Element> {
    if dtype == "F32"@ {
        Some(Element::F32)
    } else if dtype == "F64"@ {
        Some(Element::F64)
    } else if dtype == "F16"@ {
        Some(Element::F16)
    } else if dtype == "BF16"@ {
        Some(Element::BF16)
    } else if dtype == "I64"@ {
        Some(Element::I64)
    } else if dtype == "I32"@ {
        Some(Element::I32)
    } else if dtype == "I16"@ {
        Some(Element::I16)
    } else if dtype == "U8"@ || dtype == "BOOL"@ {
        Some(Element::U8)
    } else if dtype == "I8"@ {
        Some(Element::I8)
    } else {
        None
    }
}

fn element_of(dtype: &str) -> (r: Option<Element>)
    ensures
        r == element_named(dtype@),
{
    if text::same_text(dtype, "F32") {
        Some(Element::F32)
    } else if text::same_text(dtype, "F64") {
        Some(Element::F64)
    } else if text::same_text(dtype, "F16") {
        Some(Element::F16)
    } else if text::same_text(dtype, "BF16") {
        Some(Element::BF16)
    } else if text::same_text(dtype, "I64") {
        Some(Element::I64)
    } else if text::same_text(dtype, "I32") {
        Some(Element::I32)
    } else if text::same_text(dtype, "I16") {
        Some(Element::I16)
    } else if text::same_text(dtype, "U8") || text::same_text(dtype, "BOOL") {
        Some(Element::U8)
    } else if text::same_text(dtype, "I8") {
        Some(Element::I8)
    } else {
        None
    }
}

/// The elements of a run of bytes, which must be exactly theirs.
pub open spec fn decoded(raw: Seq<u8>, dtype: Seq<char>, expected: usize) -> Result<
    Seq<u32>,
    ErrorView,
> {
    match element_named(dtype) {
        None => Err(Error::CheckpointOf(Detail::TensorDtype { dtype })),
        Some(e) => if raw.len() == expected * e.width_spec() {
            Ok(e.words_spec(raw, expected as nat))
        } else {
            Err(
                Error::CheckpointOf(
                    Detail::TensorBytes { bytes: raw.len() as usize, elements: expected, dtype },
                ),
            )
        },
    }
}

/// What a result of words stands for.
pub open spec fn words_view(r: Result<Vec<u32>, Error>) -> Result<Seq<u32>, ErrorView> {
    match r {
        Ok(w) => Ok(w@),
        Err(e) => Err(e@),
    }
}

fn decode_run(bytes: &[u8], at: usize, len: usize, dtype: &str, expected: usize) -> (r: Result<
    Vec<u32>,
    Error,
>)
    requires
        at + len <= bytes@.len(),
    ensures
        words_view(r) == decoded(bytes@.subrange(at as int, at + len), dtype@, expected),
{
    let element = match element_of(dtype) {
        Some(found) => found,
        None => {
            return Err(
                Error::CheckpointOf(Detail::TensorDtype { dtype: String::from_str(dtype) }),
            );
        },
    };
    let matching = match expected.checked_mul(element.width()) {
        Some(need) => need == len,
        None => false,
    };
    let have: usize = bytes.len();
    if !matching {
        return Err(
            Error::CheckpointOf(
                Detail::TensorBytes {
                    bytes: len,
                    elements: expected,
                    dtype: String::from_str(dtype),
                },
            ),
        );
    }
    let words = element.words(bytes, at, expected);
    proof {
        let w = element.width_spec() as int;
        let raw = bytes@.subrange(at as int, at + len);
        let rest = bytes@.skip(at as int);
        assert forall|i: int| 0 <= i < expected implies raw.subrange(
            #[trigger] (i * w),
            (i + 1) * w,
        ) =~= rest.subrange(i * w, (i + 1) * w) by {
            assert(0 <= i * w && (i + 1) * w <= expected * w && (i + 1) * w == i * w + w)
                by (nonlinear_arith)
                requires
                    0 <= i < expected,
                    w >= 0,
            ;
        }
        assert(element.words_spec(raw, expected as nat) =~= element.words_spec(
            rest,
            expected as nat,
        ));
    }
    Ok(words)
}

/// The elements of one tensor; `expected` is how many its shape has.
pub fn decode(raw: &[u8], dtype: &str, expected: usize, name: &str) -> (r: Result<
    Vec<u32>,
    CheckpointError,
>)
    ensures
        match r {
            Ok(w) => decoded(raw@, dtype@, expected) == Ok::<Seq<u32>, ErrorView>(w@),
            Err(e) => {
                &&& decoded(raw@, dtype@, expected) == Err::<Seq<u32>, ErrorView>(e@.fault)
                &&& e@.name == Some(name@)
            },
        },
{
    assert(raw@.subrange(0, raw@.len() as int) =~= raw@);
    match decode_run(raw, 0, raw.len(), dtype, expected) {
        Ok(w) => Ok(w),
        Err(fault) => Err(CheckpointError { name: Some(String::from_str(name)), fault }),
    }
}

/// The product of a shape's axes, empty ones aside.
pub open spec fn spread(shape: Seq<usize>) -> nat
    decreases shape.len(),
{
    if shape.len() == 0 {
        1
    } else if shape.last() == 0 {
        spread(shape.drop_last())
    } else {
        spread(shape.drop_last()) * shape.last() as nat
    }
}

/// Makes an array of elements by calling `ndarray::ArrayD::from_shape_vec`, and takes
/// the elements back by `into_raw_vec_and_offset`. The claim: it succeeds exactly where
/// the axes multiply to the number of elements and, empty axes aside, to no more than an
/// `isize` holds; the elements stay as they are. The error's sentence says which of the
/// two fails, the second first.
#[verifier::external_body]
fn array_words(shape: &Vec<usize>, words: Vec<u32>) -> (r: Result<Vec<u32>, String>)
    ensures
        match r {
            Ok(w) => {
                &&& w@ == words@
                &&& spread(shape@) <= isize::MAX
                &&& tensor::elements(shape@) == words@.len()
            },
            Err(reason) => if spread(shape@) > isize::MAX {
                reason@ == "ShapeError/Overflow: arithmetic overflow"@
            } else if tensor::elements(shape@) > words@.len() {
                reason@ == "ShapeError/OutOfBounds: out of bounds indexing"@
            } else {
                &&& tensor::elements(shape@) < words@.len()
                &&& reason@ == "ShapeError/IncompatibleShape: incompatible shapes"@
            },
        },
{
    match ArrayD::from_shape_vec(IxDyn(shape), words) {
        Ok(array) => Ok(array.into_raw_vec_and_offset().0),
        Err(error) => Err(error.to_string()),
    }
}

// --------------------------------------------------------------------- entries

/// The member of that name, the first where there are several.
pub open spec fn member(members: Seq<(Seq<char>, FieldView)>, key: Seq<char>) -> Option<FieldView>
    decreases members.len(),
{
    if members.len() == 0 {
        None
    } else if members[0].0 == key {
        Some(members[0].1)
    } else {
        member(members.drop_first(), key)
    }
}

/// An entry's member of that name.
pub open spec fn field(entry: EntryView, key: Seq<char>) -> Option<FieldView> {
    match entry.1 {
        Some(members) => member(members, key),
        None => None,
    }
}

fn find_field<'a>(entry: &'a Entry, key: &str) -> (r: Option<&'a Field>)
    ensures
        match r {
            Some(f) => field(entry@, key@) == Some(f@),
            None => field(entry@, key@) is None,
        },
{
    match &entry.members {
        Some(members) => {
            let ghost all = members_view(members@);
            let mut i: usize = 0;
            assert(all.skip(0) =~= all);
            while i < members.len()
                invariant
                    i <= members@.len(),
                    all == members_view(members@),
                    entry@.1 == Some(all),
                    member(all, key@) == member(all.skip(i as int), key@),
                decreases members@.len() - i,
            {
                proof {
                    let rest = all.skip(i as int);
                    assert(rest[0] == (members@[i as int].0@, members@[i as int].1@));
                    assert(rest.drop_first() =~= all.skip(i as int + 1));
                }
                if text::same_text(members[i].0.as_str(), key) {
                    return Some(&members[i].1);
                }
                i += 1;
            }
            None
        },
        None => None,
    }
}

/// A list's item, nothing where it is no such number.
pub open spec fn number(item: Option<u64>) -> u64 {
    match item {
        Some(n) => n,
        None => 0,
    }
}

fn number_of(item: Option<u64>) -> (r: u64)
    ensures
        r == number(item),
{
    match item {
        Some(n) => n,
        None => 0,
    }
}

/// The axes of a list.
pub open spec fn axes(list: Seq<Option<u64>>) -> Seq<usize> {
    Seq::new(list.len(), |i: int| number(list[i]) as usize)
}

fn axes_of(list: &Vec<Option<u64>>) -> (r: Vec<usize>)
    ensures
        r@ == axes(list@),
{
    let mut r: Vec<usize> = Vec::new();
    let mut i: usize = 0;
    while i < list.len()
        invariant
            i <= list@.len(),
            r@.len() == i,
            forall|j: int| 0 <= j < i ==> (#[trigger] r@[j]) == number(list@[j]) as usize,
        decreases list@.len() - i,
    {
        r.push(number_of(list[i]) as usize);
        i += 1;
    }
    assert(r@ =~= axes(list@));
    r
}

/// What a result of a tensor stands for.
pub open spec fn tensor_view(r: Result<Tensor, Error>) -> Result<TensorData, ErrorView> {
    match r {
        Ok(t) => Ok(t@),
        Err(e) => Err(e@),
    }
}

/// The tensor an entry describes; what the entry lacks comes before what does not fit.
pub open spec fn tensor_of(entry: EntryView, data: Seq<u8>) -> Result<TensorData, ErrorView> {
    match field(entry, "dtype"@) {
        Some(FieldView::Text(dtype)) => match field(entry, "shape"@) {
            Some(FieldView::List(list)) => match field(entry, "data_offsets"@) {
                Some(FieldView::List(offsets)) => if offsets.len() != 2 {
                    Err(Error::Checkpoint(Fault::TensorOffsets))
                } else {
                    tensor_from(dtype, axes(list), number(offsets[0]), number(offsets[1]), data)
                },
                _ => Err(Error::Checkpoint(Fault::TensorNoOffsets)),
            },
            _ => Err(Error::Checkpoint(Fault::TensorNoShape)),
        },
        _ => Err(Error::Checkpoint(Fault::TensorNoDtype)),
    }
}

/// The tensor a run of the data holds.
pub open spec fn tensor_from(
    dtype: Seq<char>,
    shape: Seq<usize>,
    begin: u64,
    stop: u64,
    data: Seq<u8>,
) -> Result<TensorData, ErrorView> {
    if stop < begin || stop > data.len() {
        Err(Error::Checkpoint(Fault::TensorRange { begin, stop, len: data.len() as usize }))
    } else if !tensor::countable(shape) {
        Err(Error::Checkpoint(Fault::TensorUncountable))
    } else {
        let raw = data.subrange(begin as int, stop as int);
        match decoded(raw, dtype, tensor::elements(shape) as usize) {
            Err(fault) => Err(fault),
            Ok(words) => if spread(shape) > isize::MAX {
                Err(
                    Error::CheckpointOf(
                        Detail::TensorShape {
                            reason: "ShapeError/Overflow: arithmetic overflow"@,
                        },
                    ),
                )
            } else {
                Ok(TensorData { shape, words })
            },
        }
    }
}

fn read_run(
    dtype: &str,
    shape: Vec<usize>,
    begin: u64,
    stop: u64,
    bytes: &[u8],
    at: usize,
) -> (r: Result<Tensor, Error>)
    requires
        at <= bytes@.len(),
    ensures
        tensor_view(r) == tensor_from(dtype@, shape@, begin, stop, bytes@.skip(at as int)),
{
    let len: usize = bytes.len() - at;
    if stop < begin || stop > len as u64 {
        return Err(Error::Checkpoint(Fault::TensorRange { begin, stop, len }));
    }
    let count: usize = match tensor::count_of(&shape) {
        Some(count) => count,
        None => {
            return Err(Error::Checkpoint(Fault::TensorUncountable));
        },
    };
    let from: usize = at + begin as usize;
    let size: usize = stop as usize - begin as usize;
    assert(bytes@.subrange(from as int, from + size) =~= bytes@.skip(at as int).subrange(
        begin as int,
        stop as int,
    ));
    let words = match decode_run(bytes, from, size, dtype, count) {
        Ok(words) => words,
        Err(fault) => {
            return Err(fault);
        },
    };
    match array_words(&shape, words) {
        Ok(words) => Ok(Tensor { shape, words }),
        Err(reason) => Err(Error::CheckpointOf(Detail::TensorShape { reason })),
    }
}

fn read_tensor(entry: &Entry, bytes: &[u8], at: usize) -> (r: Result<Tensor, Error>)
    requires
        at <= bytes@.len(),
    ensures
        tensor_view(r) == tensor_of(entry@, bytes@.skip(at as int)),
{
    let dtype = match find_field(entry, "dtype") {
        Some(Field::Text(dtype)) => dtype,
        _ => {
            return Err(Error::Checkpoint(Fault::TensorNoDtype));
        },
    };
    let shape = match find_field(entry, "shape") {
        Some(Field::List(list)) => axes_of(list),
        _ => {
            return Err(Error::Checkpoint(Fault::TensorNoShape));
        },
    };
    let offsets = match find_field(entry, "data_offsets") {
        Some(Field::List(offsets)) => offsets,
        _ => {
            return Err(Error::Checkpoint(Fault::TensorNoOffsets));
        },
    };
    if offsets.len() != 2 {
        return Err(Error::Checkpoint(Fault::TensorOffsets));
    }
    let begin: u64 = number_of(offsets[0]);
    let stop: u64 = number_of(offsets[1]);
    read_run(dtype.as_str(), shape, begin, stop, bytes, at)
}

// ------------------------------------------------------------------------ files

/// What a file's contents stand for.
#[verifier::ext_equal]
pub struct SafeView {
    pub tensors: Map<Seq<char>, TensorData>,
    pub metadata: Map<Seq<char>, Seq<char>>,
}

/// Tensors and metadata, each name once.
#[derive(Debug, Clone)]
pub struct SafeTensors {
    pub tensors: Vec<(String, Tensor)>,
    pub metadata: Vec<(String, String)>,
}

/// Whether a name stands at this place of a list.
pub open spec fn named_at<T>(list: Seq<(String, T)>, name: Seq<char>, i: int) -> bool {
    0 <= i < list.len() && list[i].0@ == name
}

/// What a list of names has for each of them.
pub open spec fn table<T>(list: Seq<(String, T)>) -> Map<Seq<char>, T> {
    Map::new(
        |name: Seq<char>| exists|i: int| named_at(list, name, i),
        |name: Seq<char>| list[choose|i: int| named_at(list, name, i)].1,
    )
}

/// Whether each name stands once.
pub open spec fn distinct<T>(list: Seq<(String, T)>) -> bool {
    forall|i: int, j: int|
        0 <= i < list.len() && 0 <= j < list.len() && (#[trigger] list[i]).0@ == (
        #[trigger] list[j]).0@ ==> i == j
}

/// Where a name stands.
fn position<T>(list: &Vec<(String, T)>, name: &str) -> (r: Option<usize>)
    requires
        distinct(list@),
    ensures
        match r {
            Some(i) => {
                &&& named_at(list@, name@, i as int)
                &&& table(list@).contains_key(name@)
                &&& table(list@)[name@] == list@[i as int].1
            },
            None => !table(list@).contains_key(name@),
        },
{
    let mut i: usize = 0;
    while i < list.len()
        invariant
            i <= list@.len(),
            distinct(list@),
            forall|j: int| 0 <= j < i ==> !named_at(list@, name@, j),
        decreases list@.len() - i,
    {
        if text::same_text(list[i].0.as_str(), name) {
            assert(named_at(list@, name@, i as int));
            return Some(i);
        }
        i += 1;
    }
    None
}

/// Adds a value; it takes the place of one of its name.
fn put<T>(list: &mut Vec<(String, T)>, name: String, value: T)
    requires
        distinct(old(list)@),
    ensures
        distinct(final(list)@),
        table(final(list)@) == table(old(list)@).insert(name@, value),
{
    let ghost before = list@;
    let ghost key = name@;
    let found = position(list, name.as_str());
    let ghost at = match found {
        Some(i) => i as int,
        None => before.len() as int,
    };
    match found {
        Some(i) => {
            list.set(i, (name, value));
        },
        None => {
            assert(forall|j: int| !named_at(before, key, j));
            list.push((name, value));
            assert forall|j: int| 0 <= j < before.len() implies (#[trigger] list@[j]).0@ != key by {
                assert(!named_at(before, key, j));
            }
        },
    }
    proof {
        let after = list@;
        assert(named_at(after, key, at));
        assert(distinct(after)) by {
            assert forall|i: int, j: int|
                0 <= i < after.len() && 0 <= j < after.len() && (#[trigger] after[i]).0@ == (
                #[trigger] after[j]).0@ implies i == j by {
                if i < before.len() && j < before.len() {
                    assert(before[i].0@ == before[j].0@);
                }
            }
        }
        assert forall|k: Seq<char>| #[trigger]
            table(after).contains_key(k) == table(before).insert(key, value).contains_key(k) by {
            if exists|j: int| named_at(after, k, j) {
                let j = choose|j: int| named_at(after, k, j);
                if j != at {
                    assert(named_at(before, k, j));
                }
            }
            if exists|j: int| named_at(before, k, j) {
                let j = choose|j: int| named_at(before, k, j);
                assert(named_at(after, k, j));
            }
        }
        assert forall|k: Seq<char>| #[trigger] table(after).contains_key(k) implies table(after)[k]
            == table(before).insert(key, value)[k] by {
            let j = choose|j: int| named_at(after, k, j);
            if k == key {
                assert(after[j].0@ == after[at].0@);
            } else {
                assert(named_at(before, k, j));
                let l = choose|l: int| named_at(before, k, l);
                assert(before[j].0@ == before[l].0@);
            }
        }
        assert(table(after) =~= table(before).insert(key, value));
    }
}

impl View for SafeTensors {
    type V = SafeView;

    open spec fn view(&self) -> SafeView {
        SafeView {
            tensors: table(self.tensors@).map_values(|t: Tensor| t@),
            metadata: table(self.metadata@).map_values(|t: String| t@),
        }
    }
}

impl Default for SafeTensors {
    /// No tensors and no metadata.
    fn default() -> (r: Self)
        ensures
            r.wf(),
            r@ == (SafeView { tensors: Map::empty(), metadata: Map::empty() }),
    {
        SafeTensors::empty()
    }
}

impl SafeTensors {
    /// Each name stands once.
    pub open spec fn wf(&self) -> bool {
        distinct(self.tensors@) && distinct(self.metadata@)
    }

    fn empty() -> (r: Self)
        ensures
            r.wf(),
            r@ == (SafeView { tensors: Map::empty(), metadata: Map::empty() }),
    {
        let r = SafeTensors { tensors: Vec::new(), metadata: Vec::new() };
        assert(r@.tensors =~= Map::<Seq<char>, TensorData>::empty());
        assert(r@.metadata =~= Map::<Seq<char>, Seq<char>>::empty());
        r
    }

    /// The tensor of that name.
    pub fn get(&self, name: &str) -> (r: Option<&Tensor>)
        requires
            self.wf(),
        ensures
            match r {
                Some(t) => self@.tensors.contains_key(name@) && t@ == self@.tensors[name@],
                None => !self@.tensors.contains_key(name@),
            },
    {
        match position(&self.tensors, name) {
            Some(i) => Some(&self.tensors[i].1),
            None => None,
        }
    }

    fn put_tensor(&mut self, name: String, t: Tensor)
        requires
            old(self).wf(),
        ensures
            final(self).wf(),
            final(self)@ == (SafeView {
                tensors: old(self)@.tensors.insert(name@, t@),
                ..old(self)@
            }),
    {
        put(&mut self.tensors, name, t);
        assert(self@.tensors =~= old(self)@.tensors.insert(name@, t@));
    }

    fn put_text(&mut self, name: String, value: String)
        requires
            old(self).wf(),
        ensures
            final(self).wf(),
            final(self)@ == (SafeView {
                metadata: old(self)@.metadata.insert(name@, value@),
                ..old(self)@
            }),
    {
        put(&mut self.metadata, name, value);
        assert(self@.metadata =~= old(self)@.metadata.insert(name@, value@));
    }
}

/// Metadata with the texts among the first `n` members added.
pub open spec fn with_texts(
    metadata: Map<Seq<char>, Seq<char>>,
    members: Seq<(Seq<char>, FieldView)>,
    n: nat,
) -> Map<Seq<char>, Seq<char>>
    decreases n,
{
    if n == 0 {
        metadata
    } else {
        let before = with_texts(metadata, members, (n - 1) as nat);
        match members[n - 1].1 {
            FieldView::Text(t) => before.insert(members[n - 1].0, t),
            _ => before,
        }
    }
}

/// The reserved entry.
pub open spec fn reserved() -> Seq<char> {
    "__metadata__"@
}

/// What the first `n` entries hold, read in order up to the first that cannot be.
pub open spec fn contents(entries: Seq<EntryView>, data: Seq<u8>, n: nat) -> Result<
    SafeView,
    CheckpointFault,
>
    decreases n,
{
    if n == 0 {
        Ok(SafeView { tensors: Map::empty(), metadata: Map::empty() })
    } else {
        match contents(entries, data, (n - 1) as nat) {
            Err(e) => Err(e),
            Ok(s) => extended(s, entries[n - 1], data),
        }
    }
}

/// What is read so far, and one entry more.
pub open spec fn extended(s: SafeView, entry: EntryView, data: Seq<u8>) -> Result<
    SafeView,
    CheckpointFault,
> {
    if entry.0 == reserved() {
        Ok(
            SafeView {
                metadata: match entry.1 {
                    Some(members) => with_texts(s.metadata, members, members.len()),
                    None => s.metadata,
                },
                ..s
            },
        )
    } else {
        match tensor_of(entry, data) {
            Ok(t) => Ok(SafeView { tensors: s.tensors.insert(entry.0, t), ..s }),
            Err(fault) => Err(CheckpointFault { name: Some(entry.0), fault }),
        }
    }
}

fn no_tensor(fault: Error) -> (r: CheckpointError)
    ensures
        r@ == (CheckpointFault { name: None, fault: fault@ }),
{
    CheckpointError { name: None, fault }
}

/// Where a file's header ends, or why it has none.
pub open spec fn header_end(bytes: Seq<u8>) -> Result<int, CheckpointFault> {
    if bytes.len() < 8 {
        Err(CheckpointFault { name: None, fault: Error::Checkpoint(Fault::HeaderShort) })
    } else {
        let claimed = numbers::le_value(bytes.subrange(0, 8));
        if 8 + claimed > bytes.len() {
            Err(
                CheckpointFault {
                    name: None,
                    fault: Error::Checkpoint(
                        Fault::HeaderClaim { claimed: claimed as u64, len: bytes.len() as usize },
                    ),
                },
            )
        } else {
            Ok(8 + claimed as int)
        }
    }
}

/// What a file holds whose header is `document`, read as JSON.
pub open spec fn file_contents(
    document: Result<Option<Seq<EntryView>>, Seq<char>>,
    data: Seq<u8>,
) -> Result<SafeView, CheckpointFault> {
    match document {
        Err(reason) => Err(
            CheckpointFault {
                name: None,
                fault: Error::CheckpointOf(Detail::HeaderJson { reason }),
            },
        ),
        Ok(None) => Err(
            CheckpointFault { name: None, fault: Error::Checkpoint(Fault::HeaderObject) },
        ),
        Ok(Some(entries)) => contents(entries, data, entries.len()),
    }
}

/// What a result stands for.
pub open spec fn result_view(r: Result<SafeTensors, CheckpointError>) -> Result<
    SafeView,
    CheckpointFault,
> {
    match r {
        Ok(s) => Ok(s@),
        Err(e) => Err(e@),
    }
}

impl SafeTensors {
    fn add_metadata(&mut self, members: &Vec<(String, Field)>)
        requires
            old(self).wf(),
        ensures
            final(self).wf(),
            final(self)@ == (SafeView {
                metadata: with_texts(
                    old(self)@.metadata,
                    members_view(members@),
                    members@.len(),
                ),
                ..old(self)@
            }),
    {
        let ghost all = members_view(members@);
        let mut i: usize = 0;
        while i < members.len()
            invariant
                i <= members@.len(),
                all == members_view(members@),
                self.wf(),
                self@ == (SafeView {
                    metadata: with_texts(old(self)@.metadata, all, i as nat),
                    ..old(self)@
                }),
            decreases members@.len() - i,
        {
            assert(all[i as int] == (members@[i as int].0@, members@[i as int].1@));
            match &members[i].1 {
                Field::Text(t) => {
                    self.put_text(members[i].0.clone(), t.clone());
                },
                _ => {},
            }
            i += 1;
        }
    }

    /// What the entries of a header hold; the data starts at `at`.
    pub fn from_entries(entries: &Vec<Entry>, bytes: &[u8], at: usize) -> (r: Result<
        SafeTensors,
        CheckpointError,
    >)
        requires
            at <= bytes@.len(),
        ensures
            result_view(r) == contents(
                entries_view(entries@),
                bytes@.skip(at as int),
                entries@.len(),
            ),
            r matches Ok(s) ==> s.wf(),
    {
        let ghost all = entries_view(entries@);
        let ghost data = bytes@.skip(at as int);
        let mut out = SafeTensors::empty();
        let mut i: usize = 0;
        while i < entries.len()
            invariant
                i <= entries@.len(),
                at <= bytes@.len(),
                all == entries_view(entries@),
                data == bytes@.skip(at as int),
                out.wf(),
                contents(all, data, i as nat) == Ok::<SafeView, CheckpointFault>(out@),
            decreases entries@.len() - i,
        {
            let entry = &entries[i];
            assert(all[i as int] == entry@);
            if text::same_text(entry.name.as_str(), "__metadata__") {
                match &entry.members {
                    Some(members) => {
                        out.add_metadata(members);
                    },
                    None => {},
                }
            } else {
                match read_tensor(entry, bytes, at) {
                    Ok(t) => {
                        out.put_tensor(entry.name.clone(), t);
                    },
                    Err(fault) => {
                        proof {
                            lemma_stopped(all, data, i as nat + 1, all.len());
                        }
                        return Err(CheckpointError { name: Some(entry.name.clone()), fault });
                    },
                }
            }
            i += 1;
        }
        Ok(out)
    }

    /// Reads a file's bytes.
    pub fn parse(bytes: &[u8]) -> (r: Result<SafeTensors, CheckpointError>)
        ensures
            match header_end(bytes@) {
                Err(e) => result_view(r) == Err::<SafeView, CheckpointFault>(e),
                Ok(end) => result_view(r) == file_contents(
                    json_header(bytes@.subrange(8, end)),
                    bytes@.skip(end),
                ),
            },
            r matches Ok(s) ==> s.wf(),
    {
        let len: usize = bytes.len();
        if len < 8 {
            return Err(no_tensor(Error::Checkpoint(Fault::HeaderShort)));
        }
        let claimed: u64 = numbers::le_uint(bytes, 0, 8);
        if claimed > (len - 8) as u64 {
            return Err(no_tensor(Error::Checkpoint(Fault::HeaderClaim { claimed, len })));
        }
        let end: usize = 8 + claimed as usize;
        match parse_header(vstd::slice::slice_subrange(bytes, 8, end)) {
            Ok(Some(entries)) => SafeTensors::from_entries(&entries, bytes, end),
            Ok(None) => Err(no_tensor(Error::Checkpoint(Fault::HeaderObject))),
            Err(reason) => Err(no_tensor(Error::CheckpointOf(Detail::HeaderJson { reason }))),
        }
    }
}

/// Once an entry cannot be read, the file cannot.
proof fn lemma_stopped(entries: Seq<EntryView>, data: Seq<u8>, m: nat, n: nat)
    requires
        m <= n,
        contents(entries, data, m) is Err,
    ensures
        contents(entries, data, n) == contents(entries, data, m),
    decreases n,
{
    if m < n {
        lemma_stopped(entries, data, m, (n - 1) as nat);
    }
}

/// The reserved entry is never a tensor, and every tensor has the elements its shape
/// counts.
pub proof fn law_tensors_are_whole(entries: Seq<EntryView>, data: Seq<u8>, n: nat)
    ensures
        contents(entries, data, n) matches Ok(s) ==> {
            &&& !s.tensors.contains_key(reserved())
            &&& forall|name: Seq<char>| #[trigger]
                s.tensors.contains_key(name) ==> s.tensors[name].words.len() == tensor::elements(
                    s.tensors[name].shape,
                )
        },
    decreases n,
{
    if n > 0 {
        law_tensors_are_whole(entries, data, (n - 1) as nat);
        if let Ok(s) = contents(entries, data, (n - 1) as nat) {
            let entry = entries[n - 1];
            if let Ok(t) = tensor_of(entry, data) {
                assert(t.words.len() == tensor::elements(t.shape)) by {
                    assert(t.shape.take(t.shape.len() as int) =~= t.shape);
                }
            }
        }
    }
}

} // verus!
