//! NumPy's `.npy` files: reading versions 1 to 3, writing version 1.
//!
//! Whatever element type a file has, it is read as 32-bit floats. The numbers are held
//! as bit patterns.

use vstd::prelude::*;
use vstd::string::*;
use vstd::utf8;

use crate::error::{Detail, Error, ErrorView, Fault};
use crate::gpu::tensor;
use crate::numbers;
use crate::numbers::Element;
use crate::search;
use crate::text;

verus! {

/// The element types of a `.npy` file.
#[derive(Debug, Clone, Copy, PartialEq, Eq, Structural)]
pub enum NpyDtype {
    F32,
    F64,
    I64,
    I32,
    U8,
    I8,
    Bool,
}

/// Whether a character says how the bytes of an element are ordered.
pub open spec fn is_order(c: char) -> bool {
    c == '<' || c == '>' || c == '=' || c == '|'
}

/// A descriptor without what it says about the order of bytes.
pub open spec fn unordered(descr: Seq<char>) -> Seq<char>
    decreases descr.len(),
{
    if descr.len() > 0 && is_order(descr[0]) {
        unordered(descr.drop_first())
    } else {
        descr
    }
}

impl NpyDtype {
    /// The element type a descriptor names.
    pub open spec fn named(descr: Seq<char>) -> Option<NpyDtype> {
        let body = unordered(descr);
        if body == "f4"@ {
            Some(NpyDtype::F32)
        } else if body == "f8"@ {
            Some(NpyDtype::F64)
        } else if body == "i8"@ {
            Some(NpyDtype::I64)
        } else if body == "i4"@ {
            Some(NpyDtype::I32)
        } else if body == "u1"@ {
            Some(NpyDtype::U8)
        } else if body == "i1"@ {
            Some(NpyDtype::I8)
        } else if body == "b1"@ {
            Some(NpyDtype::Bool)
        } else {
            None
        }
    }

    /// The element type a descriptor like `<f4` names.
    pub fn parse(descr: &str) -> (r: Result<Self, Error>)
        ensures
            match r {
                Ok(d) => Self::named(descr@) == Some(d),
                Err(e) => Self::named(descr@) is None && e@ == element_fault(descr@),
            },
    {
        let chars: Vec<char> = text::chars_of(descr);
        let mut at: usize = 0;
        assert(descr@.skip(0) =~= descr@);
        while at < chars.len() && (chars[at] == '<' || chars[at] == '>' || chars[at] == '='
            || chars[at] == '|')
            invariant
                at <= chars@.len(),
                chars@ == descr@,
                unordered(descr@) == unordered(descr@.skip(at as int)),
            decreases chars@.len() - at,
        {
            assert(descr@.skip(at as int).drop_first() =~= descr@.skip(at as int + 1));
            at += 1;
        }
        let body = descr.substring_char(at, chars.len());
        assert(body@ =~= descr@.skip(at as int));
        if text::same_text(body, "f4") {
            Ok(NpyDtype::F32)
        } else if text::same_text(body, "f8") {
            Ok(NpyDtype::F64)
        } else if text::same_text(body, "i8") {
            Ok(NpyDtype::I64)
        } else if text::same_text(body, "i4") {
            Ok(NpyDtype::I32)
        } else if text::same_text(body, "u1") {
            Ok(NpyDtype::U8)
        } else if text::same_text(body, "i1") {
            Ok(NpyDtype::I8)
        } else if text::same_text(body, "b1") {
            Ok(NpyDtype::Bool)
        } else {
            Err(Error::ShapeOf(Detail::NpyElement { body: String::from_str(body) }))
        }
    }

    /// How the bytes of an element are read.
    pub open spec fn element_spec(self) -> Element {
        match self {
            NpyDtype::F32 => Element::F32,
            NpyDtype::F64 => Element::F64,
            NpyDtype::I64 => Element::I64,
            NpyDtype::I32 => Element::I32,
            NpyDtype::I8 => Element::I8,
            NpyDtype::U8 | NpyDtype::Bool => Element::U8,
        }
    }

    fn element(self) -> (r: Element)
        ensures
            r == self.element_spec(),
    {
        match self {
            NpyDtype::F32 => Element::F32,
            NpyDtype::F64 => Element::F64,
            NpyDtype::I64 => Element::I64,
            NpyDtype::I32 => Element::I32,
            NpyDtype::I8 => Element::I8,
            NpyDtype::U8 | NpyDtype::Bool => Element::U8,
        }
    }

    /// Bytes per element.
    pub open spec fn size_spec(self) -> nat {
        match self {
            NpyDtype::F32 | NpyDtype::I32 => 4,
            NpyDtype::F64 | NpyDtype::I64 => 8,
            NpyDtype::U8 | NpyDtype::I8 | NpyDtype::Bool => 1,
        }
    }

    /// Bytes per element.
    pub fn size(self) -> (r: usize)
        ensures
            r == self.size_spec(),
            r == self.element_spec().width_spec(),
    {
        match self {
            NpyDtype::F32 | NpyDtype::I32 => 4,
            NpyDtype::F64 | NpyDtype::I64 => 8,
            NpyDtype::U8 | NpyDtype::I8 | NpyDtype::Bool => 1,
        }
    }
}

/// Why a descriptor names no element type: what follows its byte order is none.
pub open spec fn element_fault(descr: Seq<char>) -> ErrorView {
    Error::ShapeOf(Detail::NpyElement { body: unordered(descr) })
}

/// What an array stands for.
#[verifier::ext_equal]
pub struct NpyView {
    pub shape: Seq<usize>,
    pub data: Seq<u32>,
}

/// An array of 32-bit floats, as bits, row-major.
#[derive(Debug, Clone)]
pub struct NpyArray {
    pub shape: Vec<usize>,
    pub data: Vec<u32>,
}

impl View for NpyArray {
    type V = NpyView;

    open spec fn view(&self) -> NpyView {
        NpyView { shape: self.shape@, data: self.data@ }
    }
}

// ------------------------------------------------------------------- the header

/// The six bytes every file starts with.
pub open spec fn magic() -> Seq<u8> {
    seq![0x93u8, 0x4eu8, 0x55u8, 0x4du8, 0x50u8, 0x59u8]
}

/// Where the header lies. Nothing is said where the file ends inside the header's
/// length.
pub open spec fn opened(bytes: Seq<u8>) -> Option<Result<(int, int), ErrorView>> {
    if bytes.len() < 10 || bytes.take(6) != magic() {
        Some(Err(Error::Shape(Fault::NpyMagic)))
    } else if bytes[6] == 1 {
        Some(header_span(bytes, 10, numbers::le_value(bytes.subrange(8, 10)) as int))
    } else if bytes[6] == 2 || bytes[6] == 3 {
        if bytes.len() < 12 {
            None
        } else {
            Some(header_span(bytes, 12, numbers::le_value(bytes.subrange(8, 12)) as int))
        }
    } else {
        Some(
            Err(
                Error::Shape(
                    Fault::NpyVersion { major: bytes[6] as usize, minor: bytes[7] as usize },
                ),
            ),
        )
    }
}

pub open spec fn header_span(bytes: Seq<u8>, start: int, len: int) -> Result<(int, int), ErrorView> {
    if start + len > bytes.len() {
        Err(Error::Shape(Fault::NpyTruncated))
    } else {
        Ok((start, start + len))
    }
}

fn open_header(bytes: &[u8]) -> (r: Option<Result<(usize, usize), Error>>)
    ensures
        match r {
            Some(Ok((start, end))) => {
                &&& opened(bytes@) == Some(Ok::<(int, int), ErrorView>((start as int, end as int)))
                &&& start <= end <= bytes@.len()
            },
            Some(Err(e)) => opened(bytes@) == Some(Err::<(int, int), ErrorView>(e@)),
            None => opened(bytes@) is None,
        },
{
    let have: usize = bytes.len();
    if have < 10 || !starts_with_magic(bytes) {
        return Some(Err(Error::Shape(Fault::NpyMagic)));
    }
    let major: u8 = bytes[6];
    let (start, len): (usize, u64) = if major == 1 {
        (10, numbers::le_uint(bytes, 8, 2))
    } else if major == 2 || major == 3 {
        if have < 12 {
            return None;
        }
        (12, numbers::le_uint(bytes, 8, 4))
    } else {
        return Some(
            Err(
                Error::Shape(
                    Fault::NpyVersion { major: major as usize, minor: bytes[7] as usize },
                ),
            ),
        );
    };
    if len > (have - start) as u64 {
        return Some(Err(Error::Shape(Fault::NpyTruncated)));
    }
    Some(Ok((start, start + len as usize)))
}

fn starts_with_magic(bytes: &[u8]) -> (r: bool)
    requires
        bytes@.len() >= 6,
    ensures
        r == (bytes@.take(6) == magic()),
{
    let r = bytes[0] == 0x93 && bytes[1] == 0x4e && bytes[2] == 0x55 && bytes[3] == 0x4d
        && bytes[4] == 0x50 && bytes[5] == 0x59;
    proof {
        let head = bytes@.take(6);
        if r {
            assert(head =~= magic());
        } else {
            assert(head[0] != magic()[0] || head[1] != magic()[1] || head[2] != magic()[2]
                || head[3] != magic()[3] || head[4] != magic()[4] || head[5] != magic()[5]);
        }
    }
    r
}

/// The quoted text behind `key` and a colon, as its ends.
pub open spec fn quoted(h: Seq<char>, key: Seq<char>) -> Option<(int, int)> {
    match search::found(h, key, 0, h.len() as int) {
        Some(start) => match search::found_char(h, ':', start + key.len(), h.len() as int) {
            Some(colon) => {
                let at = search::past_white(h, colon + 1);
                if at < h.len() && (h[at] == '\'' || h[at] == '"') {
                    match search::found_char(h, h[at], at + 1, h.len() as int) {
                        Some(end) => Some((at + 1, end)),
                        None => None,
                    }
                } else {
                    None
                }
            },
            None => None,
        },
        None => None,
    }
}

/// The quoted text behind `key` and a colon, as its ends.
pub fn find_quoted(h: &Vec<char>, key: &Vec<char>) -> (r: Option<(usize, usize)>)
    ensures
        match r {
            Some((a, b)) => {
                &&& quoted(h@, key@) == Some((a as int, b as int))
                &&& a <= b <= h@.len()
            },
            None => quoted(h@, key@) is None,
        },
{
    let len: usize = h.len();
    let start: usize = match search::find(h, key, 0, len) {
        Some(start) => start + key.len(),
        None => {
            return None;
        },
    };
    let colon: usize = match search::find_char(h, ':', start, len) {
        Some(colon) => colon,
        None => {
            return None;
        },
    };
    let at: usize = search::skip_white(h, colon + 1);
    if at >= len || (h[at] != '\'' && h[at] != '"') {
        return None;
    }
    match search::find_char(h, h[at], at + 1, len) {
        Some(end) => Some((at + 1, end)),
        None => None,
    }
}

/// Where `'shape'` or `"shape"` stands.
pub open spec fn shape_key(h: Seq<char>) -> Option<int> {
    match search::found(h, "'shape'"@, 0, h.len() as int) {
        Some(i) => Some(i),
        None => search::found(h, "\"shape\""@, 0, h.len() as int),
    }
}

/// The text between the shape's parentheses, as its ends. Nothing is said where the
/// closing one comes first.
pub open spec fn shape_span(h: Seq<char>) -> Option<Result<(int, int), ErrorView>> {
    match shape_key(h) {
        Some(start) => match (
            search::found_char(h, '(', start, h.len() as int),
            search::found_char(h, ')', start, h.len() as int),
        ) {
            (Some(open), Some(close)) => if close < open {
                None
            } else {
                Some(Ok((open + 1, close)))
            },
            _ => Some(Err(Error::Shape(Fault::NpyNoTuple))),
        },
        None => Some(Err(Error::Shape(Fault::NpyNoShape))),
    }
}

/// The text between the shape's parentheses, as its ends.
pub fn extract_shape(h: &Vec<char>) -> (r: Option<Result<(usize, usize), Error>>)
    ensures
        match r {
            Some(Ok((a, b))) => {
                &&& shape_span(h@) == Some(Ok::<(int, int), ErrorView>((a as int, b as int)))
                &&& a <= b <= h@.len()
            },
            Some(Err(e)) => shape_span(h@) == Some(Err::<(int, int), ErrorView>(e@)),
            None => shape_span(h@) is None,
        },
{
    let len: usize = h.len();
    let single: Vec<char> = text::chars_of("'shape'");
    let double: Vec<char> = text::chars_of("\"shape\"");
    let start: usize = match search::find(h, &single, 0, len) {
        Some(start) => start,
        None => match search::find(h, &double, 0, len) {
            Some(start) => start,
            None => {
                return Some(Err(Error::Shape(Fault::NpyNoShape)));
            },
        },
    };
    let open: usize = match search::find_char(h, '(', start, len) {
        Some(open) => open,
        None => {
            return Some(Err(Error::Shape(Fault::NpyNoTuple)));
        },
    };
    let close: usize = match search::find_char(h, ')', start, len) {
        Some(close) => close,
        None => {
            return Some(Err(Error::Shape(Fault::NpyNoTuple)));
        },
    };
    if close < open {
        return None;
    }
    proof {
        search::lemma_found_char_holds(h@, '(', start as int, len as int);
        search::lemma_found_char_holds(h@, ')', start as int, len as int);
    }
    Some(Ok((open + 1, close)))
}

// --------------------------------------------------------------------- the axes

/// The numbers between the commas of a text, or why the first that is none is none;
/// blank ones are passed over.
pub open spec fn axes(t: Seq<char>) -> Result<Seq<usize>, Seq<char>>
    decreases t.len(),
{
    proof {
        search::lemma_found_char(t, ',', 0, t.len() as int);
    }
    let comma = search::found_char(t, ',', 0, t.len() as int);
    let part = search::trimmed(
        match comma {
            Some(c) => t.take(c),
            None => t,
        },
    );
    let rest = match comma {
        Some(c) => axes(t.skip(c + 1)),
        None => Ok(Seq::empty()),
    };
    if part.len() == 0 {
        rest
    } else {
        match text::parsed_usize(part) {
            Some(n) => prefixed(seq![n as usize], rest),
            None => Err(text::number_fault(part)),
        }
    }
}

/// The numbers between the commas of a text.
fn parse_axes(t: &str) -> (r: Result<Vec<usize>, &'static str>)
    ensures
        match r {
            Ok(shape) => axes(t@) == Ok::<Seq<usize>, Seq<char>>(shape@),
            Err(reason) => axes(t@) == Err::<Seq<usize>, Seq<char>>(reason@),
        },
{
    let chars: Vec<char> = text::chars_of(t);
    let mut shape: Vec<usize> = Vec::new();
    let mut at: usize = 0;
    let mut more = true;
    assert(t@.skip(0) =~= t@);
    proof {
        if let Ok(s) = axes(t@) {
            assert(shape@ + s =~= s);
        }
    }
    while more
        invariant
            at <= chars@.len(),
            chars@ == t@,
            more ==> axes(t@) == prefixed(shape@, axes(t@.skip(at as int))),
            !more ==> axes(t@) == Ok::<Seq<usize>, Seq<char>>(shape@),
        decreases chars@.len() - at + (if more {
            1int
        } else {
            0int
        }),
    {
        let ghost rest = t@.skip(at as int);
        let comma = search::find_char(&chars, ',', at, chars.len());
        proof {
            search::lemma_found_char_shift(t@, ',', at as int, t@.len() as int);
        }
        let end: usize = match comma {
            Some(c) => c,
            None => chars.len(),
        };
        let part = search::trim(t.substring_char(at, end));
        proof {
            match comma {
                Some(c) => {
                    assert(rest.take(c - at) =~= t@.subrange(at as int, c as int));
                    assert(rest.skip(c - at + 1) =~= t@.skip(c + 1));
                },
                None => {
                    assert(rest =~= t@.subrange(at as int, t@.len() as int));
                },
            }
        }
        let ghost before = shape@;
        let ghost tail = match comma {
            Some(c) => axes(t@.skip(c + 1)),
            None => Ok(Seq::<usize>::empty()),
        };
        if !part.is_empty() {
            match text::parse_usize(part) {
                Ok(n) => {
                    shape.push(n);
                    proof {
                        if let Ok(s) = tail {
                            assert(before + (seq![n] + s) =~= shape@ + s);
                        }
                    }
                },
                Err(reason) => {
                    return Err(reason);
                },
            }
        }
        match comma {
            Some(c) => {
                at = c + 1;
            },
            None => {
                more = false;
                assert(shape@ + Seq::<usize>::empty() =~= shape@);
            },
        }
    }
    Ok(shape)
}

/// `head` in front of what follows, if that can be read.
pub open spec fn prefixed(head: Seq<usize>, tail: Result<Seq<usize>, Seq<char>>) -> Result<
    Seq<usize>,
    Seq<char>,
> {
    match tail {
        Ok(s) => Ok(head + s),
        Err(reason) => Err(reason),
    }
}

// ---------------------------------------------------------------------- reading

/// The sentence in which `std::str::from_utf8` says why bytes are no UTF-8.
pub uninterp spec fn utf8_fault(bytes: Seq<u8>) -> Seq<char>;

/// Reads bytes as UTF-8 by calling `std::str::from_utf8`. The claim: it gives a text
/// exactly where the bytes are valid UTF-8, and the text is what they encode; elsewhere
/// its error's sentence is a function of the bytes alone, [`utf8_fault`].
#[verifier::external_body]
fn utf8_text(bytes: &[u8]) -> (r: Result<String, String>)
    ensures
        match r {
            Ok(t) => utf8::valid_utf8(bytes@) && t@ == utf8::decode_utf8(bytes@),
            Err(reason) => !utf8::valid_utf8(bytes@) && reason@ == utf8_fault(bytes@),
        },
{
    match std::str::from_utf8(bytes) {
        Ok(text) => Ok(text.to_string()),
        Err(error) => Err(error.to_string()),
    }
}

/// What a header says.
#[verifier::ext_equal]
pub struct HeaderView {
    pub dtype: NpyDtype,
    pub fortran: bool,
    pub shape: Seq<usize>,
}

struct Header {
    dtype: NpyDtype,
    fortran: bool,
    shape: Vec<usize>,
}

/// Where the descriptor stands.
pub open spec fn descriptor(h: Seq<char>) -> Option<(int, int)> {
    match quoted(h, "'descr'"@) {
        Some(span) => Some(span),
        None => quoted(h, "\"descr\""@),
    }
}

/// Whether the axes are stored first one fastest.
pub open spec fn is_fortran(h: Seq<char>) -> bool {
    ||| search::found(h, "'fortran_order': True"@, 0, h.len() as int) is Some
    ||| search::found(h, "\"fortran_order\": True"@, 0, h.len() as int) is Some
}

/// What a header says, or the first thing it lacks: descriptor, shape, numbers in the
/// shape, a known descriptor.
pub open spec fn described(h: Seq<char>) -> Option<Result<HeaderView, ErrorView>> {
    match descriptor(h) {
        None => Some(Err(Error::Shape(Fault::NpyNoDescr))),
        Some((a, b)) => match shape_span(h) {
            None => None,
            Some(Err(e)) => Some(Err(e)),
            Some(Ok((open, close))) => match axes(h.subrange(open, close)) {
                Err(reason) => Some(
                    Err(
                        Error::ShapeOf(
                            Detail::NpyBadShape { shape: h.subrange(open, close), reason },
                        ),
                    ),
                ),
                Ok(shape) => match NpyDtype::named(h.subrange(a, b)) {
                    None => Some(Err(element_fault(h.subrange(a, b)))),
                    Some(dtype) => Some(
                        Ok(HeaderView { dtype, fortran: is_fortran(h), shape }),
                    ),
                },
            },
        },
    }
}

fn describe(header: &str) -> (r: Option<Result<Header, Error>>)
    ensures
        match r {
            Some(Ok(x)) => described(header@) == Some(
                Ok::<HeaderView, ErrorView>(
                    HeaderView { dtype: x.dtype, fortran: x.fortran, shape: x.shape@ },
                ),
            ),
            Some(Err(e)) => described(header@) == Some(Err::<HeaderView, ErrorView>(e@)),
            None => described(header@) is None,
        },
{
    let h: Vec<char> = text::chars_of(header);
    let single: Vec<char> = text::chars_of("'descr'");
    let double: Vec<char> = text::chars_of("\"descr\"");
    let (a, b): (usize, usize) = match find_quoted(&h, &single) {
        Some(span) => span,
        None => match find_quoted(&h, &double) {
            Some(span) => span,
            None => {
                return Some(Err(Error::Shape(Fault::NpyNoDescr)));
            },
        },
    };
    let descr = header.substring_char(a, b);
    let single_order: Vec<char> = text::chars_of("'fortran_order': True");
    let double_order: Vec<char> = text::chars_of("\"fortran_order\": True");
    let fortran = match search::find(&h, &single_order, 0, h.len()) {
        Some(_) => true,
        None => match search::find(&h, &double_order, 0, h.len()) {
            Some(_) => true,
            None => false,
        },
    };
    let (open, close): (usize, usize) = match extract_shape(&h) {
        Some(Ok(span)) => span,
        Some(Err(e)) => {
            return Some(Err(e));
        },
        None => {
            return None;
        },
    };
    let shape_text = header.substring_char(open, close);
    let shape = match parse_axes(shape_text) {
        Ok(shape) => shape,
        Err(reason) => {
            return Some(
                Err(
                    Error::ShapeOf(
                        Detail::NpyBadShape {
                            shape: String::from_str(shape_text),
                            reason: String::from_str(reason),
                        },
                    ),
                ),
            );
        },
    };
    match NpyDtype::parse(descr) {
        Ok(dtype) => Some(Ok(Header { dtype, fortran, shape })),
        Err(e) => Some(Err(e)),
    }
}

/// Where the `i`-th element in row-major order stands among elements whose first axis
/// varies fastest.
pub open spec fn fortran_place(shape: Seq<usize>, i: int) -> int
    decreases shape.len(),
{
    if shape.len() == 0 {
        0
    } else {
        let last = shape.last() as int;
        (i % last) * tensor::elements(shape.drop_last()) + fortran_place(
            shape.drop_last(),
            i / last,
        )
    }
}

/// Elements whose first axis varies fastest, in row-major order.
pub open spec fn row_major(data: Seq<u32>, shape: Seq<usize>) -> Seq<u32> {
    Seq::new(tensor::elements(shape), |i: int| data[fortran_place(shape, i)])
}

/// Every element of the one order is an element of the other.
pub proof fn law_fortran_places_lie_inside(shape: Seq<usize>, i: int)
    requires
        0 <= i < tensor::elements(shape),
    ensures
        0 <= fortran_place(shape, i) < tensor::elements(shape),
    decreases shape.len(),
{
    if shape.len() > 0 {
        let last = shape.last() as int;
        let front = tensor::elements(shape.drop_last()) as int;
        assert(last > 0) by (nonlinear_arith)
            requires
                0 < front * last,
                front >= 0,
                last >= 0,
        ;
        vstd::arithmetic::div_mod::lemma_fundamental_div_mod(i, last);
        assert(0 <= i / last < front) by (nonlinear_arith)
            requires
                0 <= i < front * last,
                last > 0,
        ;
        law_fortran_places_lie_inside(shape.drop_last(), i / last);
        let rest = fortran_place(shape.drop_last(), i / last);
        let r = i % last;
        assert(0 <= r * front + rest < front * last) by (nonlinear_arith)
            requires
                0 <= r < last,
                0 <= rest < front,
        ;
    }
}

fn place(shape: &Vec<usize>, index: usize) -> (r: usize)
    requires
        tensor::countable(shape@),
        index < tensor::elements(shape@),
    ensures
        r == fortran_place(shape@, index as int),
        r < tensor::elements(shape@),
{
    let ghost all = shape@;
    proof {
        law_fortran_places_lie_inside(all, index as int);
        assert(all.take(all.len() as int) =~= all);
    }
    let mut left: usize = index;
    let mut total: usize = 0;
    let mut strides: usize = tensor::elements_of(shape);
    let mut axis: usize = shape.len();
    while axis > 0
        invariant
            axis <= shape@.len(),
            all == shape@,
            tensor::countable(all),
            strides == tensor::elements(all.take(axis as int)),
            left < strides,
            total + fortran_place(all.take(axis as int), left as int) == fortran_place(
                all,
                index as int,
            ),
            fortran_place(all, index as int) < tensor::elements(all) <= usize::MAX,
        decreases axis,
    {
        let ghost now = all.take(axis as int);
        let len: usize = shape[axis - 1];
        proof {
            assert(now.drop_last() =~= all.take(axis - 1));
            assert(now.last() == len);
            let front = tensor::elements(all.take(axis - 1)) as int;
            assert(strides == front * len);
            assert(len > 0 && front > 0) by (nonlinear_arith)
                requires
                    0 < strides,
                    strides == front * len,
                    front >= 0,
                    len >= 0,
            ;
            assert(strides / len == front) by (nonlinear_arith)
                requires
                    strides == front * len,
                    len > 0,
            ;
            vstd::arithmetic::div_mod::lemma_fundamental_div_mod(left as int, len as int);
            assert(0 <= left / len < front) by (nonlinear_arith)
                requires
                    0 <= left < front * len,
                    len > 0,
            ;
            law_fortran_places_lie_inside(all.take(axis - 1), (left / len) as int);
            let r = (left % len) as int;
            assert(r * front >= 0) by (nonlinear_arith)
                requires
                    r >= 0,
                    front >= 0,
            ;
        }
        strides = strides / len;
        total = total + (left % len) * strides;
        left = left / len;
        axis -= 1;
    }
    assert(all.take(0) =~= Seq::<usize>::empty());
    total
}

/// Reorders elements whose first axis varies fastest into row-major order.
pub fn fortran_to_c(data: Vec<u32>, shape: &Vec<usize>) -> (r: Vec<u32>)
    requires
        tensor::countable(shape@),
        data@.len() == tensor::elements(shape@),
    ensures
        r@ == row_major(data@, shape@),
{
    let count: usize = data.len();
    let mut r: Vec<u32> = Vec::new();
    let mut i: usize = 0;
    while i < count
        invariant
            i <= count,
            count == data@.len(),
            tensor::countable(shape@),
            data@.len() == tensor::elements(shape@),
            r@ == row_major(data@, shape@).take(i as int),
        decreases count - i,
    {
        let from: usize = place(shape, i);
        r.push(data[from]);
        i += 1;
        assert(r@ =~= row_major(data@, shape@).take(i as int));
    }
    assert(r@ =~= row_major(data@, shape@));
    r
}

/// The array of a header and what follows it. Nothing is said where the elements or
/// their bytes cannot be counted in a machine word.
pub open spec fn populated(h: HeaderView, payload: Seq<u8>) -> Option<Result<NpyView, ErrorView>> {
    let count = tensor::elements(h.shape);
    let need = count * h.dtype.size_spec();
    if !tensor::countable(h.shape) || need > usize::MAX {
        None
    } else if payload.len() < need {
        Some(
            Err(
                Error::Shape(
                    Fault::NpyPayload { have: payload.len() as usize, need: need as usize },
                ),
            ),
        )
    } else {
        let stored = h.dtype.element_spec().words_spec(payload, count);
        Some(
            Ok(
                NpyView {
                    shape: h.shape,
                    data: if h.fortran && h.shape.len() > 1 {
                        row_major(stored, h.shape)
                    } else {
                        stored
                    },
                },
            ),
        )
    }
}

fn populate(h: Header, bytes: &[u8], at: usize) -> (r: Option<Result<NpyArray, Error>>)
    requires
        at <= bytes@.len(),
    ensures
        match r {
            Some(Ok(x)) => populated(
                HeaderView { dtype: h.dtype, fortran: h.fortran, shape: h.shape@ },
                bytes@.skip(at as int),
            ) == Some(Ok::<NpyView, ErrorView>(x@)),
            Some(Err(e)) => populated(
                HeaderView { dtype: h.dtype, fortran: h.fortran, shape: h.shape@ },
                bytes@.skip(at as int),
            ) == Some(Err::<NpyView, ErrorView>(e@)),
            None => populated(
                HeaderView { dtype: h.dtype, fortran: h.fortran, shape: h.shape@ },
                bytes@.skip(at as int),
            ) is None,
        },
{
    let count: usize = match tensor::count_of(&h.shape) {
        Some(count) => count,
        None => {
            return None;
        },
    };
    let need: usize = match count.checked_mul(h.dtype.size()) {
        Some(need) => need,
        None => {
            return None;
        },
    };
    let have: usize = bytes.len() - at;
    if have < need {
        return Some(Err(Error::Shape(Fault::NpyPayload { have, need })));
    }
    let stored = h.dtype.element().words(bytes, at, count);
    let data = if h.fortran && h.shape.len() > 1 {
        fortran_to_c(stored, &h.shape)
    } else {
        stored
    };
    Some(Ok(NpyArray { shape: h.shape, data }))
}

/// The array a file holds, or why it holds none. Nothing is said of a file that ends
/// inside its header's length, whose shape closes before it opens, or whose elements
/// cannot be counted in a machine word.
pub open spec fn reading(bytes: Seq<u8>) -> Option<Result<NpyView, ErrorView>> {
    match opened(bytes) {
        None => None,
        Some(Err(e)) => Some(Err(e)),
        Some(Ok((start, end))) => {
            let head = bytes.subrange(start, end);
            if !utf8::valid_utf8(head) {
                Some(Err(Error::ShapeOf(Detail::NpyHeader { reason: utf8_fault(head) })))
            } else {
                match described(utf8::decode_utf8(head)) {
                    None => None,
                    Some(Err(e)) => Some(Err(e)),
                    Some(Ok(h)) => populated(h, bytes.skip(end)),
                }
            }
        },
    }
}

/// Reads a file's bytes; nothing where [`parse_npy`] cannot be asked.
pub fn try_parse_npy(bytes: &[u8]) -> (r: Option<Result<NpyArray, Error>>)
    ensures
        match r {
            Some(Ok(x)) => reading(bytes@) == Some(Ok::<NpyView, ErrorView>(x@)),
            Some(Err(e)) => reading(bytes@) == Some(Err::<NpyView, ErrorView>(e@)),
            None => reading(bytes@) is None,
        },
{
    let (start, end): (usize, usize) = match open_header(bytes) {
        Some(Ok(span)) => span,
        Some(Err(e)) => {
            return Some(Err(e));
        },
        None => {
            return None;
        },
    };
    let header = match utf8_text(vstd::slice::slice_subrange(bytes, start, end)) {
        Ok(header) => header,
        Err(reason) => {
            return Some(Err(Error::ShapeOf(Detail::NpyHeader { reason })));
        },
    };
    match describe(header.as_str()) {
        Some(Ok(h)) => populate(h, bytes, end),
        Some(Err(e)) => Some(Err(e)),
        None => None,
    }
}

/// Whether anything is said of a file; see [`reading`].
pub open spec fn answerable(bytes: Seq<u8>) -> bool {
    match opened(bytes) {
        None => false,
        Some(Err(_)) => true,
        Some(Ok((start, end))) => {
            let head = bytes.subrange(start, end);
            utf8::valid_utf8(head) ==> match described(utf8::decode_utf8(head)) {
                None => false,
                Some(Err(_)) => true,
                Some(Ok(h)) => populated(h, bytes.skip(end)) is Some,
            }
        },
    }
}

/// Reads a file's bytes.
pub fn parse_npy(bytes: &[u8]) -> (r: Result<NpyArray, Error>)
    requires
        answerable(bytes@),
    ensures
        match r {
            Ok(x) => reading(bytes@) == Some(Ok::<NpyView, ErrorView>(x@)),
            Err(e) => reading(bytes@) == Some(Err::<NpyView, ErrorView>(e@)),
        },
{
    try_parse_npy(bytes).unwrap()
}

// ---------------------------------------------------------------------- writing

/// What a written header says in front of the shape.
pub open spec fn header_head() -> Seq<char> {
    "{'descr': '<f4', 'fortran_order': False, 'shape': ("@
}

/// A written header, padding aside.
pub open spec fn header_text(shape: Seq<usize>) -> Seq<char> {
    header_head() + text::joined(text::decimals(shape), ", "@) + "), }"@
}

/// Spaces that bring the payload to a multiple of 64 bytes.
pub open spec fn padding(len: int) -> int {
    (64 - (10 + len + 1) % 64) % 64
}

/// A written header: its text, spaces, a line break.
pub open spec fn written_header(shape: Seq<usize>) -> Seq<u8> {
    let text = utf8::encode_utf8(header_text(shape));
    text + Seq::new(padding(text.len() as int) as nat, |i: int| 32u8) + seq![10u8]
}

/// The words of an array, lowest byte first.
pub open spec fn written_words(data: Seq<u32>) -> Seq<u8>
    decreases data.len(),
{
    if data.len() == 0 {
        Seq::empty()
    } else {
        written_words(data.drop_last()) + numbers::le_bytes(data.last() as nat, 4)
    }
}

/// Whether the header's length fits the two bytes it has.
pub open spec fn listable(shape: Seq<usize>) -> bool {
    written_header(shape).len() < 65536
}

/// An array as a file.
pub open spec fn written(shape: Seq<usize>, data: Seq<u32>) -> Seq<u8> {
    let header = written_header(shape);
    magic() + seq![1u8, 0u8] + numbers::le_bytes(header.len(), 2) + header
        + written_words(data)
}

/// The file of an array, or why it has none: the values must be as many as the shape
/// has places, and the header no longer than the format can say.
pub open spec fn writing(shape: Seq<usize>, data: Seq<u32>) -> Result<Seq<u8>, ErrorView> {
    if data.len() != tensor::elements(shape) {
        Err(
            Error::Shape(
                Fault::NpyCount {
                    count: tensor::elements(shape) as usize,
                    len: data.len() as usize,
                },
            ),
        )
    } else if !listable(shape) {
        Err(Error::Shape(Fault::NpyHeaderLength { axes: shape.len() as usize }))
    } else {
        Ok(written(shape, data))
    }
}

fn shape_text(shape: &Vec<usize>) -> (r: String)
    ensures
        r@ == header_text(shape@),
{
    let mut r = String::from_str("{'descr': '<f4', 'fortran_order': False, 'shape': (");
    r.append(text::join(&text::decimal_texts(shape), ", ").as_str());
    r.append("), }");
    r
}

fn push_bytes(to: &mut Vec<u8>, bytes: &[u8])
    ensures
        final(to)@ == old(to)@ + bytes@,
{
    let len: usize = bytes.len();
    let mut i: usize = 0;
    while i < len
        invariant
            i <= len,
            len == bytes@.len(),
            to@ == old(to)@ + bytes@.take(i as int),
        decreases len - i,
    {
        to.push(bytes[i]);
        i += 1;
        assert(to@ =~= old(to)@ + bytes@.take(i as int));
    }
    assert(bytes@.take(i as int) =~= bytes@);
}

fn push_two(to: &mut Vec<u8>, value: u64)
    requires
        value < 65536,
    ensures
        final(to)@ == old(to)@ + numbers::le_bytes(value as nat, 2),
{
    to.push((value % 256) as u8);
    to.push((value / 256 % 256) as u8);
    proof {
        reveal_with_fuel(numbers::le_bytes, 3);
        assert(to@ =~= old(to)@ + numbers::le_bytes(value as nat, 2));
    }
}

fn push_word(to: &mut Vec<u8>, word: u32)
    ensures
        final(to)@ == old(to)@ + numbers::le_bytes(word as nat, 4),
{
    to.push((word % 256) as u8);
    to.push((word / 256 % 256) as u8);
    to.push((word / 256 / 256 % 256) as u8);
    to.push((word / 256 / 256 / 256 % 256) as u8);
    proof {
        reveal_with_fuel(numbers::le_bytes, 5);
        assert(to@ =~= old(to)@ + numbers::le_bytes(word as nat, 4));
    }
}

/// A row-major array of 32-bit floats as the bytes of a version 1.0 file, its payload
/// on a 64-byte boundary. A header too long for such a file is an error.
pub fn write_npy(shape: &Vec<usize>, data: &Vec<u32>) -> (r: Result<Vec<u8>, Error>)
    requires
        tensor::countable(shape@),
    ensures
        match r {
            Ok(bytes) => writing(shape@, data@) == Ok::<Seq<u8>, ErrorView>(bytes@),
            Err(e) => writing(shape@, data@) == Err::<Seq<u8>, ErrorView>(e@),
        },
{
    let count: usize = tensor::elements_of(shape);
    if count != data.len() {
        return Err(Error::Shape(Fault::NpyCount { count, len: data.len() }));
    }
    let header = shape_text(shape);
    let plain = header.as_str().as_bytes();
    let plain_len: usize = plain.len();
    let spaces: u64 = (64 - (10 + plain_len as u128 + 1) % 64) as u64 % 64;
    let full_len: u128 = plain_len as u128 + spaces as u128 + 1;
    assert(full_len == written_header(shape@).len());
    if full_len >= 65536 {
        return Err(Error::Shape(Fault::NpyHeaderLength { axes: shape.len() }));
    }
    let mut bytes: Vec<u8> = vec![0x93, 0x4e, 0x55, 0x4d, 0x50, 0x59, 1, 0];
    assert(bytes@ =~= magic() + seq![1u8, 0u8]);
    push_two(&mut bytes, full_len as u64);
    let ghost front = bytes@;
    push_bytes(&mut bytes, plain);
    let ghost before = bytes@;
    let mut i: u64 = 0;
    while i < spaces
        invariant
            i <= spaces,
            bytes@ == before + Seq::new(i as nat, |j: int| 32u8),
        decreases spaces - i,
    {
        bytes.push(32);
        i += 1;
        assert(bytes@ =~= before + Seq::new(i as nat, |j: int| 32u8));
    }
    bytes.push(10);
    assert(bytes@ =~= front + written_header(shape@));
    let ghost headed = bytes@;
    let mut n: usize = 0;
    assert(data@.take(0) =~= Seq::<u32>::empty());
    while n < data.len()
        invariant
            n <= data@.len(),
            bytes@ == headed + written_words(data@.take(n as int)),
        decreases data@.len() - n,
    {
        push_word(&mut bytes, data[n]);
        proof {
            let next = data@.take(n as int + 1);
            assert(next.drop_last() =~= data@.take(n as int));
            assert(bytes@ =~= headed + written_words(next));
        }
        n += 1;
    }
    assert(data@.take(n as int) =~= data@);
    assert(bytes@ =~= written(shape@, data@));
    Ok(bytes)
}

/// A written payload starts on a 64-byte boundary.
pub proof fn law_the_payload_is_aligned(shape: Seq<usize>)
    ensures
        (10 + written_header(shape).len()) % 64 == 0,
{
}

} // verus!
