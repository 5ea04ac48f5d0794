//! What reading a checkpoint gives, entry by entry and byte by byte.

use vstd::prelude::*;
use vstd::string::*;

use crate::gpu::tensor;
use crate::numbers;
use crate::safetensors;
use crate::safetensors::{EntryView, FieldView, SafeTensors, TensorData};

verus! {

// ---------------------------------------------------------------------- elements

/// The number of two bytes, lowest first.
pub open spec fn two(data: Seq<u8>, at: int) -> int {
    data[at] + 256 * data[at + 1]
}

/// The number of four bytes, lowest first.
pub open spec fn four(data: Seq<u8>, at: int) -> int {
    two(data, at) + 0x10000 * two(data, at + 2)
}

/// The number of eight bytes, lowest first.
pub open spec fn eight(data: Seq<u8>, at: int) -> int {
    four(data, at) + 0x100000000 * four(data, at + 4)
}

/// A number of which the upper half stands for the negative ones.
pub open spec fn wrapped(value: int, size: int) -> int {
    if value >= size / 2 {
        value - size
    } else {
        value
    }
}

/// How many bytes an element of a type takes; none where there is no such type.
pub open spec fn bytes_per(dtype: Seq<char>) -> int {
    if dtype == "F32"@ {
        4
    } else if dtype == "F64"@ {
        8
    } else if dtype == "F16"@ || dtype == "BF16"@ {
        2
    } else if dtype == "I64"@ {
        8
    } else if dtype == "I32"@ {
        4
    } else if dtype == "I16"@ {
        2
    } else if dtype == "U8"@ || dtype == "BOOL"@ || dtype == "I8"@ {
        1
    } else {
        0
    }
}

/// The 32-bit float that stands at a place of the data: a float of 32 bits is its own
/// bits, one of 16 with the exponent of 32 is their upper half, the others are converted.
pub open spec fn float_at(dtype: Seq<char>, data: Seq<u8>, at: int) -> u32 {
    if dtype == "F32"@ {
        four(data, at) as u32
    } else if dtype == "F64"@ {
        numbers::float_of_double(eight(data, at) as u64)
    } else if dtype == "F16"@ {
        numbers::float_of_half(two(data, at) as u16)
    } else if dtype == "BF16"@ {
        (0x10000 * two(data, at)) as u32
    } else if dtype == "I64"@ {
        numbers::float_of_int(wrapped(eight(data, at), 0x10000000000000000))
    } else if dtype == "I32"@ {
        numbers::float_of_int(wrapped(four(data, at), 0x100000000))
    } else if dtype == "I16"@ {
        numbers::float_of_int(wrapped(two(data, at), 0x10000))
    } else if dtype == "U8"@ || dtype == "BOOL"@ {
        numbers::float_of_int(data[at] as int)
    } else {
        numbers::float_of_int(wrapped(data[at] as int, 0x100))
    }
}

pub proof fn lemma_le(bytes: Seq<u8>)
    ensures
        bytes.len() == 1 ==> numbers::le_value(bytes) == bytes[0],
        bytes.len() == 2 ==> numbers::le_value(bytes) == two(bytes, 0),
        bytes.len() == 4 ==> numbers::le_value(bytes) == four(bytes, 0),
        bytes.len() == 8 ==> numbers::le_value(bytes) == eight(bytes, 0),
{
    reveal_with_fuel(numbers::le_value, 9);
    let n = bytes.len() as int;
    if n == 1 || n == 2 || n == 4 || n == 8 {
        lemma_le_step(bytes, 0);
        if n >= 2 {
            lemma_le_step(bytes, 1);
        }
        if n >= 4 {
            lemma_le_step(bytes, 2);
            lemma_le_step(bytes, 3);
        }
        if n >= 8 {
            lemma_le_step(bytes, 4);
            lemma_le_step(bytes, 5);
            lemma_le_step(bytes, 6);
            lemma_le_step(bytes, 7);
        }
        assert(bytes.skip(0) =~= bytes);
        assert(numbers::le_value(bytes.skip(n)) == 0);
    }
}

proof fn lemma_le_step(bytes: Seq<u8>, i: int)
    requires
        0 <= i < bytes.len(),
    ensures
        numbers::le_value(bytes.skip(i)) == bytes[i] + 256 * numbers::le_value(bytes.skip(i + 1)),
{
    assert(bytes.skip(i).drop_first() =~= bytes.skip(i + 1));
}

proof fn lemma_float_at(dtype: Seq<char>, data: Seq<u8>, begin: int, stop: int, count: nat, j: int)
    requires
        0 <= begin <= stop <= data.len(),
        safetensors::element_named(dtype) is Some,
        stop - begin == count * safetensors::element_named(dtype)->0.width_spec(),
        0 <= j < count,
    ensures
        safetensors::element_named(dtype)->0.width_spec() == bytes_per(dtype),
        safetensors::element_named(dtype)->0.words_spec(data.subrange(begin, stop), count)[j]
            == float_at(dtype, data, begin + j * bytes_per(dtype)),
{
    let e = safetensors::element_named(dtype)->0;
    let w = e.width_spec() as int;
    lemma_types(dtype);
    vstd::arithmetic::power2::lemma2_to64();
    vstd::arithmetic::power2::lemma2_to64_rest();
    let raw = data.subrange(begin, stop);
    assert(0 <= j * w && (j + 1) * w <= count * w && (j + 1) * w == j * w + w) by (nonlinear_arith)
        requires
            0 <= j < count,
            w >= 0,
    ;
    let run = raw.subrange(j * w, (j + 1) * w);
    let at = begin + j * w;
    assert forall|i: int| 0 <= i < w implies #[trigger] run[i] == data[at + i] by {}
    lemma_le(run);
    assert(e.words_spec(raw, count)[j] == e.word_spec(numbers::le_value(run)));
}

proof fn lemma_types(dtype: Seq<char>)
    ensures
        (safetensors::element_named(dtype) is Some) == (bytes_per(dtype) > 0),
        safetensors::element_named(dtype) matches Some(e) ==> e.width_spec() == bytes_per(dtype),
{
}

/// A run of bytes decodes where its type is known and it has exactly the bytes of the
/// elements expected; each element is then the float that stands at its place.
pub proof fn law_a_run_decodes_element_by_element(raw: Seq<u8>, dtype: Seq<char>, expected: usize)
    ensures
        safetensors::decoded(raw, dtype, expected) is Ok <==> bytes_per(dtype) > 0 && raw.len()
            == expected * bytes_per(dtype),
        safetensors::decoded(raw, dtype, expected) matches Ok(words) ==> {
            &&& words.len() == expected
            &&& forall|j: int|
                0 <= j < expected ==> #[trigger] words[j] == float_at(
                    dtype,
                    raw,
                    j * bytes_per(dtype),
                )
        },
{
    lemma_types(dtype);
    if let Ok(words) = safetensors::decoded(raw, dtype, expected) {
        assert(raw.subrange(0, raw.len() as int) =~= raw);
        assert forall|j: int| 0 <= j < expected implies #[trigger] words[j] == float_at(
            dtype,
            raw,
            j * bytes_per(dtype),
        ) by {
            lemma_float_at(dtype, raw, 0, raw.len() as int, expected as nat, j);
        }
    }
}

// ----------------------------------------------------------------------- entries

/// Whether an entry says something of a key: the first member of that name has it.
pub open spec fn says(entry: EntryView, key: Seq<char>, value: FieldView) -> bool {
    entry.1 matches Some(members) && exists|i: int|
        {
            &&& 0 <= i < members.len()
            &&& #[trigger] members[i] == (key, value)
            &&& forall|j: int| 0 <= j < i ==> (#[trigger] members[j]).0 != key
        }
}

/// What an item of a list counts as: an item that is no such number as nothing.
pub open spec fn counted(item: Option<u64>) -> u64 {
    if item is Some {
        item->0
    } else {
        0
    }
}

/// Whether an entry is of that type, of those axes, and has that run of the data.
pub open spec fn described_as(
    entry: EntryView,
    dtype: Seq<char>,
    shape: Seq<usize>,
    begin: int,
    stop: int,
) -> bool {
    &&& says(entry, "dtype"@, FieldView::Text(dtype))
    &&& exists|list: Seq<Option<u64>>|
        {
            &&& #[trigger] says(entry, "shape"@, FieldView::List(list))
            &&& shape.len() == list.len()
            &&& forall|i: int| 0 <= i < list.len() ==> #[trigger] shape[i] == counted(list[i]) as usize
        }
    &&& exists|offsets: Seq<Option<u64>>|
        {
            &&& #[trigger] says(entry, "data_offsets"@, FieldView::List(offsets))
            &&& offsets.len() == 2
            &&& begin == counted(offsets[0])
            &&& stop == counted(offsets[1])
        }
}

/// Whether a tensor is the one an entry describes: its axes are the entry's, and its
/// elements are those of the entry's own run of the data, in order, all of the run.
pub open spec fn is_tensor_of(entry: EntryView, data: Seq<u8>, t: TensorData) -> bool {
    exists|dtype: Seq<char>, begin: int, stop: int|
        {
            &&& #[trigger] described_as(entry, dtype, t.shape, begin, stop)
            &&& 0 <= begin <= stop <= data.len()
            &&& bytes_per(dtype) > 0
            &&& t.words.len() == tensor::elements(t.shape)
            &&& stop - begin == t.words.len() * bytes_per(dtype)
            &&& forall|j: int|
                0 <= j < t.words.len() ==> #[trigger] t.words[j] == float_at(
                    dtype,
                    data,
                    begin + j * bytes_per(dtype),
                )
        }
}

proof fn lemma_member(members: Seq<(Seq<char>, FieldView)>, key: Seq<char>)
    ensures
        match safetensors::member(members, key) {
            Some(value) => exists|i: int|
                {
                    &&& 0 <= i < members.len()
                    &&& #[trigger] members[i] == (key, value)
                    &&& forall|j: int| 0 <= j < i ==> (#[trigger] members[j]).0 != key
                },
            None => forall|i: int| 0 <= i < members.len() ==> (#[trigger] members[i]).0 != key,
        },
    decreases members.len(),
{
    if members.len() > 0 {
        if members[0].0 == key {
            assert(members[0] == (key, members[0].1));
        } else {
            let rest = members.drop_first();
            lemma_member(rest, key);
            match safetensors::member(rest, key) {
                Some(value) => {
                    let i = choose|i: int|
                        {
                            &&& 0 <= i < rest.len()
                            &&& #[trigger] rest[i] == (key, value)
                            &&& forall|j: int| 0 <= j < i ==> (#[trigger] rest[j]).0 != key
                        };
                    assert(members[i + 1] == (key, value));
                    assert forall|j: int| 0 <= j < i + 1 implies (#[trigger] members[j]).0
                        != key by {
                        if j > 0 {
                            assert(rest[j - 1] == members[j]);
                        }
                    }
                },
                None => {
                    assert forall|j: int| 0 <= j < members.len() implies (#[trigger] members[j]).0
                        != key by {
                        if j > 0 {
                            assert(rest[j - 1] == members[j]);
                        }
                    }
                },
            }
        }
    }
}

proof fn lemma_says(entry: EntryView, key: Seq<char>, value: FieldView)
    ensures
        says(entry, key, value) == (safetensors::field(entry, key) == Some(value)),
{
    if let Some(members) = entry.1 {
        lemma_member(members, key);
        if says(entry, key, value) {
            let i = choose|i: int|
                {
                    &&& 0 <= i < members.len()
                    &&& #[trigger] members[i] == (key, value)
                    &&& forall|j: int| 0 <= j < i ==> (#[trigger] members[j]).0 != key
                };
            match safetensors::member(members, key) {
                Some(other) => {
                    let k = choose|k: int|
                        {
                            &&& 0 <= k < members.len()
                            &&& #[trigger] members[k] == (key, other)
                            &&& forall|j: int| 0 <= j < k ==> (#[trigger] members[j]).0 != key
                        };
                    if i < k {
                        assert(members[i].0 != key);
                    }
                    if k < i {
                        assert(members[k].0 != key);
                    }
                },
                None => {
                    assert(members[i].0 != key);
                },
            }
        }
    }
}

/// An entry's tensor has the entry's axes and the elements of the entry's own run of the
/// data.
pub proof fn law_an_entry_gives_its_own_run(entry: EntryView, data: Seq<u8>)
    ensures
        safetensors::tensor_of(entry, data) matches Ok(t) ==> is_tensor_of(entry, data, t),
{
    if let Ok(t) = safetensors::tensor_of(entry, data) {
        let dtype = safetensors::field(entry, "dtype"@)->0->Text_0;
        let list = safetensors::field(entry, "shape"@)->0->List_0;
        let offsets = safetensors::field(entry, "data_offsets"@)->0->List_0;
        lemma_says(entry, "dtype"@, FieldView::Text(dtype));
        lemma_says(entry, "shape"@, FieldView::List(list));
        lemma_says(entry, "data_offsets"@, FieldView::List(offsets));
        let begin = safetensors::number(offsets[0]) as int;
        let stop = safetensors::number(offsets[1]) as int;
        assert(t.shape == safetensors::axes(list));
        assert(described_as(entry, dtype, t.shape, begin, stop));
        lemma_types(dtype);
        assert(t.shape.take(t.shape.len() as int) =~= t.shape);
        let count = tensor::elements(t.shape);
        assert forall|j: int| 0 <= j < t.words.len() implies #[trigger] t.words[j] == float_at(
            dtype,
            data,
            begin + j * bytes_per(dtype),
        ) by {
            lemma_float_at(dtype, data, begin, stop, count, j);
        }
    }
}

/// Whether an entry can be read: its type is known, its run lies in the data and is as
/// long as its elements, which can be counted, are.
pub open spec fn is_readable(entry: EntryView, data: Seq<u8>) -> bool {
    exists|dtype: Seq<char>, shape: Seq<usize>, begin: int, stop: int|
        {
            &&& #[trigger] described_as(entry, dtype, shape, begin, stop)
            &&& begin <= stop <= data.len()
            &&& tensor::countable(shape)
            &&& safetensors::spread(shape) <= isize::MAX
            &&& bytes_per(dtype) > 0
            &&& stop - begin == tensor::elements(shape) * bytes_per(dtype)
        }
}

/// An entry gives a tensor exactly where it can be read.
pub proof fn law_readable_entries_are_read(entry: EntryView, data: Seq<u8>)
    ensures
        safetensors::tensor_of(entry, data) is Ok == is_readable(entry, data),
{
    if let Ok(t) = safetensors::tensor_of(entry, data) {
        law_an_entry_gives_its_own_run(entry, data);
        let dtype = safetensors::field(entry, "dtype"@)->0->Text_0;
        let list = safetensors::field(entry, "shape"@)->0->List_0;
        let offsets = safetensors::field(entry, "data_offsets"@)->0->List_0;
        lemma_says(entry, "dtype"@, FieldView::Text(dtype));
        lemma_says(entry, "shape"@, FieldView::List(list));
        lemma_says(entry, "data_offsets"@, FieldView::List(offsets));
        lemma_types(dtype);
        let begin = safetensors::number(offsets[0]) as int;
        let stop = safetensors::number(offsets[1]) as int;
        assert(described_as(entry, dtype, t.shape, begin, stop));
        assert(t.shape.take(t.shape.len() as int) =~= t.shape);
    }
    if is_readable(entry, data) {
        let (dtype, shape, begin, stop) = choose|
            dtype: Seq<char>,
            shape: Seq<usize>,
            begin: int,
            stop: int,
        |
            {
                &&& #[trigger] described_as(entry, dtype, shape, begin, stop)
                &&& begin <= stop <= data.len()
                &&& tensor::countable(shape)
                &&& safetensors::spread(shape) <= isize::MAX
                &&& bytes_per(dtype) > 0
                &&& stop - begin == tensor::elements(shape) * bytes_per(dtype)
            };
        lemma_says(entry, "dtype"@, FieldView::Text(dtype));
        let list = choose|list: Seq<Option<u64>>|
            {
                &&& #[trigger] says(entry, "shape"@, FieldView::List(list))
                &&& shape.len() == list.len()
                &&& forall|i: int|
                    0 <= i < list.len() ==> #[trigger] shape[i] == counted(list[i]) as usize
            };
        lemma_says(entry, "shape"@, FieldView::List(list));
        let offsets = choose|offsets: Seq<Option<u64>>|
            {
                &&& #[trigger] says(entry, "data_offsets"@, FieldView::List(offsets))
                &&& offsets.len() == 2
                &&& begin == counted(offsets[0])
                &&& stop == counted(offsets[1])
            };
        lemma_says(entry, "data_offsets"@, FieldView::List(offsets));
        lemma_types(dtype);
        assert(safetensors::axes(list) =~= shape);
        assert(shape.take(shape.len() as int) =~= shape);
    }
}

// ------------------------------------------------------------------------- files

/// Whether entry `i` is the last of its name.
pub open spec fn is_last(entries: Seq<EntryView>, i: int) -> bool {
    &&& 0 <= i < entries.len()
    &&& forall|j: int| i < j < entries.len() ==> (#[trigger] entries[j]).0 != entries[i].0
}

/// A file that can be read has the tensors its header names and no others: every entry
/// but the reserved one is there under its name, and the last entry of a name gives the
/// tensor, with that entry's axes and the elements of that entry's run of the data.
pub proof fn law_every_entry_is_there(entries: Seq<EntryView>, data: Seq<u8>)
    ensures
        safetensors::contents(entries, data, entries.len()) matches Ok(s) ==> {
            &&& forall|name: Seq<char>| #[trigger]
                s.tensors.contains_key(name) ==> name != "__metadata__"@ && exists|i: int|
                    0 <= i < entries.len() && (#[trigger] entries[i]).0 == name
            &&& forall|i: int|
                0 <= i < entries.len() && (#[trigger] entries[i]).0 != "__metadata__"@
                    ==> s.tensors.contains_key(entries[i].0)
            &&& forall|i: int| #[trigger]
                is_last(entries, i) && entries[i].0 != "__metadata__"@ ==> is_tensor_of(
                    entries[i],
                    data,
                    s.tensors[entries[i].0],
                )
        },
{
    lemma_contents(entries, data, entries.len());
    if let Ok(s) = safetensors::contents(entries, data, entries.len()) {
        assert forall|i: int| #[trigger]
            is_last(entries, i) && entries[i].0 != "__metadata__"@ implies is_tensor_of(
            entries[i],
            data,
            s.tensors[entries[i].0],
        ) by {
            law_an_entry_gives_its_own_run(entries[i], data);
        }
    }
}

proof fn lemma_contents(entries: Seq<EntryView>, data: Seq<u8>, n: nat)
    requires
        n <= entries.len(),
    ensures
        safetensors::contents(entries, data, n) matches Ok(s) ==> {
            &&& forall|name: Seq<char>| #[trigger]
                s.tensors.contains_key(name) ==> name != "__metadata__"@ && exists|i: int|
                    0 <= i < n && (#[trigger] entries[i]).0 == name
            &&& forall|i: int|
                0 <= i < n && (#[trigger] entries[i]).0 != "__metadata__"@
                    ==> s.tensors.contains_key(entries[i].0)
            &&& forall|i: int|
                0 <= i < n && (#[trigger] entries[i]).0 != "__metadata__"@ && (forall|j: int|
                    i < j < n ==> (#[trigger] entries[j]).0 != entries[i].0)
                    ==> safetensors::tensor_of(entries[i], data) == Ok::<
                    TensorData,
                    crate::error::ErrorView,
                >(s.tensors[entries[i].0])
        },
    decreases n,
{
    if n > 0 {
        let m = (n - 1) as nat;
        lemma_contents(entries, data, m);
        if let Ok(s) = safetensors::contents(entries, data, n) {
            let before = safetensors::contents(entries, data, m)->Ok_0;
            let last = entries[m as int];
            assert forall|i: int|
                0 <= i < n && (#[trigger] entries[i]).0 != "__metadata__"@ && (forall|j: int|
                    i < j < n ==> (#[trigger] entries[j]).0 != entries[i].0) implies safetensors::tensor_of(
                entries[i],
                data,
            ) == Ok::<TensorData, crate::error::ErrorView>(s.tensors[entries[i].0]) by {
                if i < m {
                    assert(entries[m as int].0 != entries[i].0);
                }
            }
        }
    }
}

/// A file can be read exactly where each entry but the reserved ones can; otherwise the
/// error names the first entry that cannot.
pub proof fn law_a_file_is_read_where_its_entries_can_be(entries: Seq<EntryView>, data: Seq<u8>)
    ensures
        match safetensors::contents(entries, data, entries.len()) {
            Ok(_) => forall|i: int|
                0 <= i < entries.len() && (#[trigger] entries[i]).0 != "__metadata__"@
                    ==> is_readable(entries[i], data),
            Err(e) => exists|i: int|
                {
                    &&& 0 <= i < entries.len()
                    &&& e.name == Some((#[trigger] entries[i]).0)
                    &&& entries[i].0 != "__metadata__"@
                    &&& !is_readable(entries[i], data)
                    &&& forall|j: int|
                        0 <= j < i && (#[trigger] entries[j]).0 != "__metadata__"@ ==> is_readable(
                            entries[j],
                            data,
                        )
                },
        },
{
    lemma_read(entries, data, entries.len());
}

proof fn lemma_read(entries: Seq<EntryView>, data: Seq<u8>, n: nat)
    requires
        n <= entries.len(),
    ensures
        match safetensors::contents(entries, data, n) {
            Ok(_) => forall|i: int|
                0 <= i < n && (#[trigger] entries[i]).0 != "__metadata__"@ ==> is_readable(
                    entries[i],
                    data,
                ),
            Err(e) => exists|i: int|
                {
                    &&& 0 <= i < n
                    &&& e.name == Some((#[trigger] entries[i]).0)
                    &&& entries[i].0 != "__metadata__"@
                    &&& !is_readable(entries[i], data)
                    &&& forall|j: int|
                        0 <= j < i && (#[trigger] entries[j]).0 != "__metadata__"@ ==> is_readable(
                            entries[j],
                            data,
                        )
                },
        },
    decreases n,
{
    if n > 0 {
        let m = (n - 1) as nat;
        lemma_read(entries, data, m);
        law_readable_entries_are_read(entries[m as int], data);
        match safetensors::contents(entries, data, m) {
            Ok(_) => {
                let last = entries[m as int];
                if let Err(e) = safetensors::contents(entries, data, n) {
                    assert(e.name == Some(entries[m as int].0));
                }
            },
            Err(e) => {
                let i = choose|i: int|
                    {
                        &&& 0 <= i < m
                        &&& e.name == Some((#[trigger] entries[i]).0)
                        &&& entries[i].0 != "__metadata__"@
                        &&& !is_readable(entries[i], data)
                        &&& forall|j: int|
                            0 <= j < i && (#[trigger] entries[j]).0 != "__metadata__"@
                                ==> is_readable(entries[j], data)
                    };
                assert(e.name == Some(entries[i].0));
            },
        }
    }
}

/// Whether an entry is the reserved one and its member `k` is that text under that key.
pub open spec fn notes(entries: Seq<EntryView>, i: int, k: int, key: Seq<char>, t: Seq<char>) -> bool {
    &&& 0 <= i < entries.len()
    &&& entries[i].0 == "__metadata__"@
    &&& entries[i].1 matches Some(members) && 0 <= k < members.len() && members[k] == (
        key,
        FieldView::Text(t),
    )
}

/// The metadata are the texts of the reserved entry: each key has the last text that is
/// noted under it, and keys without a text are not there.
pub proof fn law_the_reserved_texts_are_handed_on(
    entries: Seq<EntryView>,
    data: Seq<u8>,
    key: Seq<char>,
)
    ensures
        safetensors::contents(entries, data, entries.len()) matches Ok(s) ==> {
            &&& s.metadata.contains_key(key) <==> exists|i: int, k: int, t: Seq<char>| #[trigger]
                notes(entries, i, k, key, t)
            &&& s.metadata.contains_key(key) ==> exists|i: int, k: int|
                {
                    &&& #[trigger] notes(entries, i, k, key, s.metadata[key])
                    &&& forall|j: int, l: int, t: Seq<char>| #[trigger]
                        notes(entries, j, l, key, t) ==> j < i || j == i && l <= k
                }
        },
{
    lemma_metadata(entries, data, entries.len(), key);
    if let Ok(s) = safetensors::contents(entries, data, entries.len()) {
        if s.metadata.contains_key(key) {
            let (i, k) = choose|i: int, k: int|
                {
                    &&& i < entries.len()
                    &&& #[trigger] notes(entries, i, k, key, s.metadata[key])
                    &&& forall|j: int, l: int, t: Seq<char>|
                        j < entries.len() && #[trigger] notes(entries, j, l, key, t) ==> j < i || j
                            == i && l <= k
                };
            assert(notes(entries, i, k, key, s.metadata[key]));
        }
    }
}

spec fn is_text(member: (Seq<char>, FieldView), key: Seq<char>) -> bool {
    member.0 == key && member.1 is Text
}

proof fn lemma_texts(
    metadata: Map<Seq<char>, Seq<char>>,
    members: Seq<(Seq<char>, FieldView)>,
    n: nat,
    key: Seq<char>,
)
    requires
        n <= members.len(),
    ensures
        ({
            let r = safetensors::with_texts(metadata, members, n);
            ||| r.contains_key(key) == metadata.contains_key(key) && (r.contains_key(key) ==> r[key]
                == metadata[key]) && forall|k: int|
                0 <= k < n ==> !is_text(#[trigger] members[k], key)
            ||| r.contains_key(key) && exists|k: int|
                {
                    &&& 0 <= k < n
                    &&& #[trigger] members[k] == (key, FieldView::Text(r[key]))
                    &&& forall|l: int| k < l < n ==> !is_text(#[trigger] members[l], key)
                }
        }),
    decreases n,
{
    if n > 0 {
        let m = (n - 1) as nat;
        lemma_texts(metadata, members, m, key);
        let before = safetensors::with_texts(metadata, members, m);
        let r = safetensors::with_texts(metadata, members, n);
        if members[m as int].0 == key && members[m as int].1 is Text {
            assert(members[m as int] == (key, FieldView::Text(r[key])));
        } else {
            assert(r.contains_key(key) == before.contains_key(key));
        }
    }
}

proof fn lemma_metadata(entries: Seq<EntryView>, data: Seq<u8>, n: nat, key: Seq<char>)
    requires
        n <= entries.len(),
    ensures
        safetensors::contents(entries, data, n) matches Ok(s) ==> {
            &&& s.metadata.contains_key(key) <==> exists|i: int, k: int, t: Seq<char>|
                i < n && #[trigger] notes(entries, i, k, key, t)
            &&& s.metadata.contains_key(key) ==> exists|i: int, k: int|
                {
                    &&& i < n
                    &&& #[trigger] notes(entries, i, k, key, s.metadata[key])
                    &&& forall|j: int, l: int, t: Seq<char>|
                        j < n && #[trigger] notes(entries, j, l, key, t) ==> j < i || j == i && l
                            <= k
                }
        },
    decreases n,
{
    if n > 0 {
        let m = (n - 1) as nat;
        lemma_metadata(entries, data, m, key);
        if let Ok(s) = safetensors::contents(entries, data, n) {
            let before = safetensors::contents(entries, data, m)->Ok_0;
            let entry = entries[m as int];
            if entry.0 == "__metadata__"@ && entry.1 is Some {
                let members = entry.1->0;
                lemma_texts(before.metadata, members, members.len(), key);
                if exists|k: int|
                    {
                        &&& 0 <= k < members.len()
                        &&& #[trigger] members[k] == (key, FieldView::Text(s.metadata[key]))
                        &&& forall|l: int| k < l < members.len() ==> !is_text(#[trigger] members[l], key)
                    } {
                    let k = choose|k: int|
                        {
                            &&& 0 <= k < members.len()
                            &&& #[trigger] members[k] == (key, FieldView::Text(s.metadata[key]))
                            &&& forall|l: int| k < l < members.len() ==> !is_text(#[trigger] members[l], key)
                        };
                    if s.metadata.contains_key(key) {
                        assert(notes(entries, m as int, k, key, s.metadata[key]));
                    }
                }
            } else {
                assert(s.metadata == before.metadata);
            }
        }
    }
}

/// A file is the length of its header as eight bytes, lowest first, the header, and the
/// data: the header read ends where that length says, and a file too short for it is
/// refused.
pub proof fn law_a_header_is_as_long_as_it_says(bytes: Seq<u8>)
    ensures
        match safetensors::header_end(bytes) {
            Ok(end) => bytes.len() >= 8 && end == 8 + eight(bytes, 0) && end <= bytes.len(),
            Err(_) => bytes.len() < 8 || 8 + eight(bytes, 0) > bytes.len(),
        },
{
    if bytes.len() >= 8 {
        lemma_le(bytes.subrange(0, 8));
    }
}

/// A tensor is found under its name.
pub proof fn law_a_tensor_is_found_under_its_name(s: SafeTensors, i: int)
    requires
        s.wf(),
        0 <= i < s.tensors@.len(),
    ensures
        s@.tensors.contains_key(s.tensors@[i].0@),
        s@.tensors[s.tensors@[i].0@] == s.tensors@[i].1@,
{
    let name = s.tensors@[i].0@;
    assert(safetensors::named_at(s.tensors@, name, i));
}

} // verus!
