//! What is written to a `.npy` file is what is read from it.

use vstd::arithmetic::power2;
use vstd::prelude::*;
use vstd::utf8;

use crate::error::ErrorView;
use crate::gpu::tensor;
use crate::npy;
use crate::npy::{HeaderView, NpyDtype, NpyView};
use crate::numbers;
use crate::numbers::Element;
use crate::safetensors_laws;
use crate::search;
use crate::text;

verus! {

// -------------------------------------------------------------------- searching

/// Whether none of the first `n` characters is `c`.
spec fn lacks(s: Seq<char>, c: char, n: nat) -> bool
    decreases n,
{
    n == 0 || (s[n - 1] != c && lacks(s, c, (n - 1) as nat))
}

proof fn lemma_lacks(s: Seq<char>, c: char, n: nat)
    requires
        lacks(s, c, n),
    ensures
        forall|i: int| 0 <= i < n ==> s[i] != c,
    decreases n,
{
    if n > 0 {
        lemma_lacks(s, c, (n - 1) as nat);
    }
}

/// Whether no place before `n` holds `a` with `b` behind it.
spec fn lacks_pair(s: Seq<char>, a: char, b: char, n: nat) -> bool
    decreases n,
{
    n == 0 || ((s[n - 1] != a || s[n as int] != b) && lacks_pair(s, a, b, (n - 1) as nat))
}

proof fn lemma_lacks_pair(s: Seq<char>, a: char, b: char, n: nat)
    requires
        lacks_pair(s, a, b, n),
    ensures
        forall|i: int| 0 <= i < n ==> #[trigger] s[i] != a || s[i + 1] != b,
    decreases n,
{
    if n > 0 {
        lemma_lacks_pair(s, a, b, (n - 1) as nat);
    }
}

/// A pattern with a character that the text lacks stands nowhere.
proof fn lemma_absent(s: Seq<char>, pattern: Seq<char>, j: int, at: int)
    requires
        0 <= j < pattern.len(),
        0 <= at,
        forall|i: int| 0 <= i < s.len() ==> s[i] != pattern[j],
    ensures
        search::found(s, pattern, at, s.len() as int) is None,
    decreases s.len() - at,
{
    if at + pattern.len() <= s.len() && at < s.len() {
        assert(s.subrange(at, at + pattern.len())[j] == s[at + j]);
        lemma_absent(s, pattern, j, at + 1);
    }
}

/// A pattern is found where it first stands.
proof fn lemma_found_at(s: Seq<char>, pattern: Seq<char>, at: int, place: int)
    requires
        pattern.len() >= 2,
        0 <= at <= place < s.len(),
        search::stands(s, pattern, place, s.len() as int),
        forall|i: int|
            at <= i < place ==> #[trigger] s[i] != pattern[0] || s[i + 1] != pattern[1],
    ensures
        search::found(s, pattern, at, s.len() as int) == Some(place),
    decreases place - at,
{
    if at < place {
        assert(s[at] != pattern[0] || s[at + 1] != pattern[1]);
        let run = s.subrange(at, at + pattern.len());
        assert(run[0] == s[at] && run[1] == s[at + 1]);
        lemma_found_at(s, pattern, at + 1, place);
    }
}

/// A character is found where it first stands.
proof fn lemma_found_char_at(s: Seq<char>, c: char, at: int, place: int)
    requires
        0 <= at <= place < s.len(),
        s[place] == c,
        forall|i: int| at <= i < place ==> s[i] != c,
    ensures
        search::found_char(s, c, at, s.len() as int) == Some(place),
    decreases place - at,
{
    if at < place {
        lemma_found_char_at(s, c, at + 1, place);
    }
}

proof fn lemma_char_absent(s: Seq<char>, c: char, at: int)
    requires
        0 <= at,
        forall|i: int| 0 <= i < s.len() ==> s[i] != c,
    ensures
        search::found_char(s, c, at, s.len() as int) is None,
    decreases s.len() - at,
{
    if at < s.len() {
        lemma_char_absent(s, c, at + 1);
    }
}

// --------------------------------------------------------------------- the axes

/// Whether a character can stand in a list of numbers.
spec fn in_list(c: char) -> bool {
    '0' <= c <= '9' || c == ',' || c == ' '
}

proof fn lemma_decimal(n: nat)
    ensures
        text::decimal(n).len() > 0,
        forall|k: int| 0 <= k < text::decimal(n).len() ==> '0' <= #[trigger] text::decimal(n)[k]
            <= '9',
    decreases n,
{
    if n >= 10 {
        lemma_decimal(n / 10);
    }
}

/// The first piece comes first.
proof fn lemma_joined_first(parts: Seq<Seq<char>>, sep: Seq<char>)
    requires
        parts.len() >= 2,
    ensures
        text::joined(parts, sep) == parts[0] + sep + text::joined(parts.drop_first(), sep),
    decreases parts.len(),
{
    let rest = parts.drop_first();
    assert(parts.last() == rest.last());
    if parts.len() == 2 {
        assert(parts.drop_last().len() == 1 && parts.drop_last()[0] == parts[0]);
        assert(text::joined(parts.drop_last(), sep) == parts[0]);
        assert(text::joined(rest, sep) == rest[0]);
    } else {
        lemma_joined_first(parts.drop_last(), sep);
        assert(parts.drop_last().drop_first() =~= rest.drop_last());
        let inner = text::joined(rest.drop_last(), sep);
        assert(text::joined(rest, sep) == inner + sep + rest.last());
        assert(parts.drop_last()[0] == parts[0]);
        assert(parts[0] + sep + inner + sep + parts.last() =~= parts[0] + sep + (inner + sep
            + parts.last()));
    }
}

proof fn lemma_list_characters(shape: Seq<usize>)
    ensures
        forall|i: int|
            0 <= i < text::joined(text::decimals(shape), ", "@).len() ==> in_list(
                #[trigger] text::joined(text::decimals(shape), ", "@)[i],
            ),
    decreases shape.len(),
{
    let parts = text::decimals(shape);
    reveal_strlit(", ");
    if shape.len() == 1 {
        lemma_decimal(shape[0] as nat);
    } else if shape.len() > 1 {
        lemma_list_characters(shape.drop_last());
        assert(parts.drop_last() =~= text::decimals(shape.drop_last()));
        lemma_decimal(shape.last() as nat);
        let front = text::joined(parts.drop_last(), ", "@);
        let all = text::joined(parts, ", "@);
        assert(all == front + ", "@ + parts.last());
        assert forall|i: int| 0 <= i < all.len() implies in_list(#[trigger] all[i]) by {
            if i < front.len() {
                assert(all[i] == front[i]);
            } else if i < front.len() + 2 {
                assert(all[i] == ", "@[i - front.len()]);
            } else {
                assert(all[i] == parts.last()[i - front.len() - 2]);
            }
        }
    }
}

/// A number with at most a space in front is that number.
proof fn lemma_part(lead: Seq<char>, n: usize)
    requires
        lead =~= Seq::<char>::empty() || lead =~= seq![' '],
    ensures
        search::trimmed(lead + text::decimal(n as nat)) == text::decimal(n as nat),
        text::parsed_usize(text::decimal(n as nat)) == Some(n as nat),
{
    let d = text::decimal(n as nat);
    let t = lead + d;
    lemma_decimal(n as nat);
    text::law_decimal_parses_back(n as nat);
    assert(t[lead.len() as int] == d[0]);
    assert(t.last() == d.last());
    reveal_with_fuel(search::past_white, 3);
    assert(search::past_white(t, 0) == lead.len());
    assert(search::before_white(t, lead.len() as int, t.len() as int) == t.len());
    assert(t.subrange(lead.len() as int, t.len() as int) =~= d);
}

/// No characters but a space are no numbers.
proof fn lemma_no_axes(lead: Seq<char>)
    requires
        lead =~= Seq::<char>::empty() || lead =~= seq![' '],
    ensures
        npy::axes(lead) == Ok::<Seq<usize>, Seq<char>>(Seq::empty()),
{
    lemma_char_absent(lead, ',', 0);
    reveal_with_fuel(search::past_white, 3);
    assert(search::trimmed(lead).len() == 0);
}

/// A number with at most a space in front holds no comma.
proof fn lemma_no_comma(lead: Seq<char>, n: usize)
    requires
        lead =~= Seq::<char>::empty() || lead =~= seq![' '],
    ensures
        forall|i: int|
            0 <= i < (lead + text::decimal(n as nat)).len() ==> #[trigger] (lead + text::decimal(
                n as nat,
            ))[i] != ',',
{
    let d = text::decimal(n as nat);
    let head = lead + d;
    lemma_decimal(n as nat);
    assert forall|i: int| 0 <= i < head.len() implies #[trigger] head[i] != ',' by {
        if i >= lead.len() {
            assert(head[i] == d[i - lead.len()]);
        }
    }
}

/// Where the first comma of `head + ", " + more` stands, and what is on its sides.
proof fn lemma_first_comma(head: Seq<char>, more: Seq<char>, t: Seq<char>)
    requires
        forall|i: int| 0 <= i < head.len() ==> #[trigger] head[i] != ',',
        t == head + ", "@ + more,
    ensures
        search::found_char(t, ',', 0, t.len() as int) == Some(head.len() as int),
        head.len() < t.len(),
        t.take(head.len() as int) == head,
        t.skip(head.len() as int + 1) == seq![' '] + more,
{
    reveal_strlit(", ");
    let comma = head.len() as int;
    assert forall|i: int| 0 <= i < comma implies t[i] != ',' by {
        assert(t[i] == head[i]);
    }
    assert(t[comma] == ", "@[0]);
    lemma_found_char_at(t, ',', 0, comma);
    assert(t.take(comma) =~= head);
    assert(t[comma + 1] == ", "@[1]);
    assert(t.skip(comma + 1) =~= seq![' '] + more);
}

/// The numbers of a list are read back.
proof fn lemma_axes(lead: Seq<char>, shape: Seq<usize>)
    requires
        lead =~= Seq::<char>::empty() || lead =~= seq![' '],
    ensures
        npy::axes(lead + text::joined(text::decimals(shape), ", "@)) == Ok::<Seq<usize>, Seq<char>>(shape),
    decreases shape.len(),
{
    let parts = text::decimals(shape);
    let t = lead + text::joined(parts, ", "@);
    if shape.len() == 0 {
        assert(t =~= lead);
        lemma_no_axes(lead);
        assert(shape =~= Seq::<usize>::empty());
    } else {
        let head = lead + text::decimal(shape[0] as nat);
        lemma_part(lead, shape[0]);
        lemma_decimal(shape[0] as nat);
        lemma_no_comma(lead, shape[0]);
        if shape.len() == 1 {
            assert(t =~= head);
            lemma_char_absent(t, ',', 0);
            assert(seq![shape[0]] + Seq::<usize>::empty() =~= shape);
        } else {
            lemma_joined_first(parts, ", "@);
            assert(parts.drop_first() =~= text::decimals(shape.drop_first()));
            let more = text::joined(parts.drop_first(), ", "@);
            assert(t =~= head + ", "@ + more);
            lemma_first_comma(head, more, t);
            lemma_axes(seq![' '], shape.drop_first());
            assert(seq![shape[0]] + shape.drop_first() =~= shape);
        }
    }
}

// ------------------------------------------------------------------- the header

/// A written header as characters.
spec fn header_chars(shape: Seq<usize>) -> Seq<char> {
    let text = npy::header_text(shape);
    text + Seq::new(npy::padding(text.len() as int) as nat, |i: int| ' ') + seq!['\n']
}

/// What a header's characters are, part by part.
spec fn laid_out(h: Seq<char>, list: Seq<char>) -> bool {
    &&& h.len() >= 55int + list.len()
    &&& forall|i: int| 0 <= i < 51 ==> h[i] == #[trigger] npy::header_head()[i]
    &&& forall|i: int| 0 <= i < list.len() ==> h[51 + i] == #[trigger] list[i]
    &&& h[51int + list.len()] == ')'
    &&& h[52int + list.len()] == ','
    &&& h[53int + list.len()] == ' '
    &&& h[54int + list.len()] == '}'
    &&& forall|i: int|
        55int + list.len() <= i < h.len() ==> #[trigger] h[i] == ' ' || h[i] == '\n'
}

proof fn lemma_head()
    ensures
        npy::header_head().len() == 51,
        npy::header_head() =~= "{'descr': '<f4', 'fortran_order': False, 'shape': ("@,
{
    reveal_strlit("{'descr': '<f4', 'fortran_order': False, 'shape': (");
}

proof fn lemma_laid_out(shape: Seq<usize>)
    ensures
        laid_out(header_chars(shape), text::joined(text::decimals(shape), ", "@)),
{
    let list = text::joined(text::decimals(shape), ", "@);
    let h = header_chars(shape);
    lemma_head();
    reveal_strlit("), }");
    let front = npy::header_head() + list;
    assert(npy::header_text(shape) == front + "), }"@);
    assert forall|i: int| 0 <= i < 51 implies h[i] == #[trigger] npy::header_head()[i] by {
        assert(front[i] == npy::header_head()[i]);
    }
    assert forall|i: int| 0 <= i < list.len() implies h[51 + i] == #[trigger] list[i] by {
        assert(front[51 + i] == list[i]);
    }
    assert(h[51int + list.len()] == "), }"@[0]);
    assert(h[52int + list.len()] == "), }"@[1]);
    assert(h[53int + list.len()] == "), }"@[2]);
    assert(h[54int + list.len()] == "), }"@[3]);
}

/// A written header's characters are plain.
proof fn lemma_ascii(shape: Seq<usize>)
    ensures
        utf8::is_ascii_chars(npy::header_text(shape)),
        utf8::is_ascii_chars(header_chars(shape)),
{
    let list = text::joined(text::decimals(shape), ", "@);
    let h = header_chars(shape);
    let t = npy::header_text(shape);
    lemma_laid_out(shape);
    lemma_list_characters(shape);
    lemma_head();
    reveal_strlit("{'descr': '<f4', 'fortran_order': False, 'shape': (");
    assert(utf8::is_ascii_chars(npy::header_head()));
    assert forall|i: int| 0 <= i < h.len() implies '\0' <= #[trigger] h[i] <= '\u{7f}' by {
        if i < 51 {
            assert(h[i] == npy::header_head()[i]);
        } else if i < 51int + list.len() {
            assert(h[51 + (i - 51)] == list[i - 51]);
        } else if i == 51int + list.len() || i == 52int + list.len() || i == 53int + list.len() || i == 54
            + list.len() {
        } else {
            assert(h[i] == ' ' || h[i] == '\n');
        }
    }
    assert forall|i: int| 0 <= i < t.len() implies '\0' <= #[trigger] t[i] <= '\u{7f}' by {
        assert(h[i] == t[i]);
    }
}

/// A written header's bytes encode its characters.
proof fn lemma_encoded(shape: Seq<usize>)
    ensures
        npy::written_header(shape) == utf8::encode_utf8(header_chars(shape)),
{
    let t = npy::header_text(shape);
    let h = header_chars(shape);
    lemma_ascii(shape);
    utf8::is_ascii_chars_encode_utf8(t);
    utf8::is_ascii_chars_encode_utf8(h);
    let a = npy::written_header(shape);
    let b = utf8::encode_utf8(h);
    assert(a.len() == b.len());
    assert forall|i: int| 0 <= i < a.len() implies a[i] == b[i] by {
        if i < t.len() {
            assert(a[i] == utf8::encode_utf8(t)[i]);
            assert(h[i] == t[i]);
        } else if i < a.len() - 1 {
            assert(a[i] == 32u8);
            assert(h[i] == ' ');
        } else {
            assert(a[i] == 10u8);
            assert(h[i] == '\n');
        }
    }
    assert(a =~= b);
}

/// A written header says that its elements are 32-bit floats.
proof fn lemma_descriptor(h: Seq<char>, list: Seq<char>)
    requires
        laid_out(h, list),
    ensures
        npy::descriptor(h) == Some((11int, 14int)),
        NpyDtype::named(h.subrange(11, 14)) == Some(NpyDtype::F32),
{
    let head = npy::header_head();
    lemma_head();
    reveal_strlit("{'descr': '<f4', 'fortran_order': False, 'shape': (");
    reveal_strlit("'descr'");
    reveal_strlit("f4");
    let key = "'descr'"@;
    assert(h[0] == head[0]);
    assert(h[1] == head[1] && h[2] == head[2] && h[3] == head[3] && h[4] == head[4] && h[5]
        == head[5] && h[6] == head[6] && h[7] == head[7]);
    assert(h.subrange(1, 8) =~= key);
    lemma_found_at(h, key, 0, 1);
    assert(h[8] == head[8]);
    lemma_found_char_at(h, ':', 8, 8);
    assert(h[9] == head[9] && h[10] == head[10]);
    reveal_with_fuel(search::past_white, 3);
    assert(search::past_white(h, 9) == 10);
    assert(h[11] == head[11] && h[12] == head[12] && h[13] == head[13] && h[14] == head[14]);
    lemma_found_char_at(h, '\'', 11, 14);
    let d = h.subrange(11, 14);
    reveal_with_fuel(npy::unordered, 3);
    assert(d.drop_first() =~= "f4"@);
    assert(npy::unordered(d) == "f4"@);
}

/// A written header says that its elements are row-major.
proof fn lemma_row_major(h: Seq<char>, list: Seq<char>)
    requires
        laid_out(h, list),
        forall|i: int| 0 <= i < list.len() ==> in_list(#[trigger] list[i]),
    ensures
        !npy::is_fortran(h),
{
    let head = npy::header_head();
    lemma_head();
    reveal_strlit("{'descr': '<f4', 'fortran_order': False, 'shape': (");
    reveal_strlit("'fortran_order': True");
    reveal_strlit("\"fortran_order\": True");
    reveal_with_fuel(lacks, 53);
    assert(lacks(head, 'T', 51));
    lemma_lacks(head, 'T', 51);
    assert forall|i: int| 0 <= i < h.len() implies h[i] != 'T' by {
        if i < 51 {
            assert(h[i] == head[i]);
        } else if i < 51int + list.len() {
            assert(h[51 + (i - 51)] == list[i - 51]);
        } else if i >= 55int + list.len() {
            assert(h[i] == ' ' || h[i] == '\n');
        }
    }
    lemma_absent(h, "'fortran_order': True"@, 17, 0);
    lemma_absent(h, "\"fortran_order\": True"@, 17, 0);
}

/// A written header's shape stands between its parentheses.
proof fn lemma_shape_span(h: Seq<char>, list: Seq<char>)
    requires
        laid_out(h, list),
        forall|i: int| 0 <= i < list.len() ==> in_list(#[trigger] list[i]),
    ensures
        npy::shape_span(h) == Some(Ok::<(int, int), ErrorView>((51, 51int + list.len()))),
        h.subrange(51, 51int + list.len()) == list,
{
    let head = npy::header_head();
    lemma_head();
    reveal_strlit("{'descr': '<f4', 'fortran_order': False, 'shape': (");
    reveal_strlit("'shape'");
    let key = "'shape'"@;
    reveal_with_fuel(lacks_pair, 43);
    assert(lacks_pair(head, '\'', 's', 41));
    lemma_lacks_pair(head, '\'', 's', 41);
    assert forall|i: int| 0 <= i < 41 implies #[trigger] h[i] != key[0] || h[i + 1] != key[1] by {
        assert(h[i] == head[i]);
        assert(h[i + 1] == head[i + 1]);
    }
    assert(h[41] == head[41] && h[42] == head[42] && h[43] == head[43] && h[44] == head[44] && h[45]
        == head[45] && h[46] == head[46] && h[47] == head[47]);
    assert(h.subrange(41, 48) =~= key);
    lemma_found_at(h, key, 0, 41);
    reveal_with_fuel(lacks, 53);
    assert(lacks(head, '(', 50));
    lemma_lacks(head, '(', 50);
    assert forall|i: int| 41 <= i < 50 implies h[i] != '(' by {
        assert(h[i] == head[i]);
    }
    assert(h[50] == head[50]);
    lemma_found_char_at(h, '(', 41, 50);
    assert(lacks(head, ')', 51));
    lemma_lacks(head, ')', 51);
    assert forall|i: int| 41 <= i < 51int + list.len() implies h[i] != ')' by {
        if i < 51 {
            assert(h[i] == head[i]);
        } else {
            assert(h[51 + (i - 51)] == list[i - 51]);
        }
    }
    lemma_found_char_at(h, ')', 41, 51int + list.len());
    assert(h.subrange(51, 51int + list.len()) =~= list) by {
        assert forall|i: int| 0 <= i < list.len() implies h[51 + i] == list[i] by {}
    }
}

/// A written header is read for what was written.
proof fn lemma_described(shape: Seq<usize>)
    ensures
        npy::described(header_chars(shape)) == Some(
            Ok::<HeaderView, ErrorView>(HeaderView { dtype: NpyDtype::F32, fortran: false, shape }),
        ),
{
    let h = header_chars(shape);
    let list = text::joined(text::decimals(shape), ", "@);
    lemma_laid_out(shape);
    lemma_list_characters(shape);
    lemma_descriptor(h, list);
    lemma_row_major(h, list);
    lemma_shape_span(h, list);
    let none = Seq::<char>::empty();
    lemma_axes(none, shape);
    assert(none + list =~= list);
}

// ------------------------------------------------------------------ the payload

proof fn lemma_words(data: Seq<u32>)
    ensures
        npy::written_words(data).len() == 4 * data.len(),
        forall|i: int|
            0 <= i < data.len() ==> npy::written_words(data).subrange(4 * i, 4 * i + 4)
                == numbers::le_bytes(#[trigger] data[i] as nat, 4),
    decreases data.len(),
{
    power2::lemma2_to64();
    if data.len() > 0 {
        let front = data.drop_last();
        lemma_words(front);
        numbers::law_le_bytes_read_back(data.last() as nat, 4);
        let all = npy::written_words(data);
        let before = npy::written_words(front);
        assert forall|i: int| 0 <= i < data.len() implies all.subrange(4 * i, 4 * i + 4)
            == numbers::le_bytes(#[trigger] data[i] as nat, 4) by {
            if i < front.len() {
                assert(front[i] == data[i]);
                assert(all.subrange(4 * i, 4 * i + 4) =~= before.subrange(4 * i, 4 * i + 4));
            } else {
                assert(all.subrange(4 * i, 4 * i + 4) =~= numbers::le_bytes(
                    data.last() as nat,
                    4,
                ));
            }
        }
    }
}

proof fn lemma_payload(data: Seq<u32>)
    ensures
        Element::F32.words_spec(npy::written_words(data), data.len()) == data,
{
    power2::lemma2_to64();
    lemma_words(data);
    let bytes = npy::written_words(data);
    let words = Element::F32.words_spec(bytes, data.len());
    assert forall|i: int| 0 <= i < data.len() implies words[i] == data[i] by {
        assert(i * 4 == 4 * i && (i + 1) * 4 == 4 * i + 4);
        numbers::law_le_bytes_read_back(data[i] as nat, 4);
        assert(bytes.subrange(4 * i, 4 * i + 4) == numbers::le_bytes(data[i] as nat, 4));
    }
    assert(words =~= data);
}

/// What is written of an array reads back as that array.
pub proof fn law_a_written_array_reads_back(shape: Seq<usize>, data: Seq<u32>, bytes: Seq<u8>)
    requires
        tensor::countable(shape),
        4 * data.len() <= usize::MAX,
        npy::writing(shape, data) == Ok::<Seq<u8>, ErrorView>(bytes),
    ensures
        npy::reading(bytes) == Some(Ok::<NpyView, ErrorView>(NpyView { shape, data })),
{
    let header = npy::written_header(shape);
    let words = npy::written_words(data);
    power2::lemma2_to64();
    numbers::law_le_bytes_read_back(header.len(), 2);
    let length = numbers::le_bytes(header.len(), 2);
    assert(bytes == npy::magic() + seq![1u8, 0u8] + length + header + words);
    assert(bytes.take(6) =~= npy::magic());
    assert(bytes[6] == 1);
    assert(bytes.subrange(8, 10) =~= length);
    let end = 10 + header.len() as int;
    assert(npy::opened(bytes) == Some(Ok::<(int, int), ErrorView>((10, end))));
    assert(bytes.subrange(10, end) =~= header);
    assert(bytes.skip(end) =~= words);
    lemma_encoded(shape);
    utf8::encode_utf8_valid_utf8(header_chars(shape));
    utf8::encode_utf8_decode_utf8(header_chars(shape));
    lemma_described(shape);
    lemma_words(data);
    lemma_payload(data);
}

// -------------------------------------------------------------- files of others

/// The header of a file as NumPy writes it: the element's descriptor, whether the first
/// axis varies fastest, the axes, and whatever fills it up.
pub open spec fn numpy_header(
    descr: Seq<char>,
    fortran: bool,
    list: Seq<char>,
    filling: Seq<char>,
) -> Seq<char> {
    "{'descr': '"@ + descr + ordering(fortran) + list + "), }"@ + filling
}

/// What stands between a descriptor and the axes.
pub open spec fn ordering(fortran: bool) -> Seq<char> {
    if fortran {
        "', 'fortran_order': True, 'shape': ("@
    } else {
        "', 'fortran_order': False, 'shape': ("@
    }
}

/// Whether a text lists a shape's axes; NumPy writes a comma behind a single one.
pub open spec fn lists(list: Seq<char>, shape: Seq<usize>) -> bool {
    ||| list == text::joined(text::decimals(shape), ", "@)
    ||| shape.len() > 0 && list == text::joined(text::decimals(shape), ", "@) + seq![',']
}

/// Whether a text is spaces and line breaks.
pub open spec fn is_filling(t: Seq<char>) -> bool {
    forall|i: int| 0 <= i < t.len() ==> #[trigger] t[i] == ' ' || t[i] == '\n'
}

/// How many bytes an element of a type takes.
pub open spec fn bytes_of(body: Seq<char>) -> int {
    if body == "f4"@ {
        4
    } else if body == "f8"@ || body == "i8"@ {
        8
    } else if body == "i4"@ {
        4
    } else {
        1
    }
}

/// The 32-bit float of the element of a type that stands at a place.
pub open spec fn element_at(body: Seq<char>, payload: Seq<u8>, at: int) -> u32 {
    if body == "f4"@ {
        safetensors_laws::four(payload, at) as u32
    } else if body == "f8"@ {
        numbers::float_of_double(safetensors_laws::eight(payload, at) as u64)
    } else if body == "i8"@ {
        numbers::float_of_int(
            safetensors_laws::wrapped(safetensors_laws::eight(payload, at), 0x10000000000000000),
        )
    } else if body == "i4"@ {
        numbers::float_of_int(
            safetensors_laws::wrapped(safetensors_laws::four(payload, at), 0x100000000),
        )
    } else if body == "u1"@ {
        numbers::float_of_int(payload[at] as int)
    } else if body == "i1"@ {
        numbers::float_of_int(safetensors_laws::wrapped(payload[at] as int, 0x100))
    } else {
        numbers::float_of_int(payload[at] as int)
    }
}

/// Whether a text is an element's type.
pub open spec fn is_body(body: Seq<char>) -> bool {
    ||| body == "f4"@
    ||| body == "f8"@
    ||| body == "i8"@
    ||| body == "i4"@
    ||| body == "u1"@
    ||| body == "i1"@
    ||| body == "b1"@
}

/// Whether a descriptor is of that type: a byte order or none, and the type.
pub open spec fn describes(descr: Seq<char>, body: Seq<char>) -> bool {
    &&& is_body(body)
    &&& {
        ||| descr == body
        ||| descr == seq!['<'] + body
        ||| descr == seq!['>'] + body
        ||| descr == seq!['='] + body
        ||| descr == seq!['|'] + body
    }
}

/// Whether each index lies on its axis.
pub open spec fn lies_in(index: Seq<int>, shape: Seq<usize>) -> bool {
    index.len() == shape.len() && forall|k: int|
        0 <= k < index.len() ==> 0 <= #[trigger] index[k] < shape[k]
}

/// Where an element stands when the last axis varies fastest.
pub open spec fn row_index(shape: Seq<usize>, index: Seq<int>) -> int
    decreases shape.len(),
{
    if shape.len() == 0 {
        0
    } else {
        row_index(shape.drop_last(), index.drop_last()) * shape.last() + index.last()
    }
}

/// Where an element stands when the first axis varies fastest.
pub open spec fn column_index(shape: Seq<usize>, index: Seq<int>) -> int
    decreases shape.len(),
{
    if shape.len() == 0 {
        0
    } else {
        index[0] + shape[0] * column_index(shape.drop_first(), index.drop_first())
    }
}

proof fn lemma_body(descr: Seq<char>, body: Seq<char>)
    requires
        describes(descr, body),
    ensures
        npy::unordered(descr) == body,
        NpyDtype::named(descr) is Some,
        descr.len() >= 2,
        forall|i: int|
            0 <= i < descr.len() ==> #[trigger] descr[i] != '\'' && descr[i] != '"' && descr[i]
                != 's' && descr[i] != 'T' && '\0' <= descr[i] <= '\u{7f}',
{
    reveal_strlit("f4");
    reveal_strlit("f8");
    reveal_strlit("i8");
    reveal_strlit("i4");
    reveal_strlit("u1");
    reveal_strlit("i1");
    reveal_strlit("b1");
    assert(body.len() == 2);
    assert(!npy::is_order(body[0]));
    assert(npy::unordered(body) == body);
    if descr != body {
        assert(descr.drop_first() =~= body);
        assert(npy::is_order(descr[0]));
        assert(npy::unordered(descr) == npy::unordered(descr.drop_first()));
    }
}

/// A row of numbers with a comma behind the last is that row of numbers.
proof fn lemma_axes_closed(lead: Seq<char>, shape: Seq<usize>)
    requires
        lead =~= Seq::<char>::empty() || lead =~= seq![' '],
        shape.len() > 0,
    ensures
        npy::axes(lead + text::joined(text::decimals(shape), ", "@) + seq![',']) == Ok::<
            Seq<usize>,
            Seq<char>,
        >(shape),
    decreases shape.len(),
{
    let parts = text::decimals(shape);
    let t = lead + text::joined(parts, ", "@) + seq![','];
    let head = lead + text::decimal(shape[0] as nat);
    lemma_part(lead, shape[0]);
    lemma_decimal(shape[0] as nat);
    lemma_no_comma(lead, shape[0]);
    if shape.len() == 1 {
        assert(t =~= head + seq![',']);
        let comma = head.len() as int;
        assert forall|i: int| 0 <= i < comma implies t[i] != ',' by {
            assert(t[i] == head[i]);
        }
        lemma_found_char_at(t, ',', 0, comma);
        assert(t.take(comma) =~= head);
        assert(t.skip(comma + 1) =~= Seq::<char>::empty());
        lemma_no_axes(Seq::<char>::empty());
        assert(seq![shape[0]] + Seq::<usize>::empty() =~= shape);
    } else {
        lemma_joined_first(parts, ", "@);
        assert(parts.drop_first() =~= text::decimals(shape.drop_first()));
        let more = text::joined(parts.drop_first(), ", "@) + seq![','];
        assert(t =~= head + ", "@ + more);
        lemma_first_comma(head, more, t);
        lemma_axes_closed(seq![' '], shape.drop_first());
        assert(seq![' '] + more =~= seq![' '] + text::joined(parts.drop_first(), ", "@) + seq![',']);
        assert(seq![shape[0]] + shape.drop_first() =~= shape);
    }
}

proof fn lemma_lists(list: Seq<char>, shape: Seq<usize>)
    requires
        lists(list, shape),
    ensures
        npy::axes(list) == Ok::<Seq<usize>, Seq<char>>(shape),
        forall|i: int| 0 <= i < list.len() ==> in_list(#[trigger] list[i]),
{
    let plain = text::joined(text::decimals(shape), ", "@);
    let none = Seq::<char>::empty();
    lemma_list_characters(shape);
    if list == plain {
        lemma_axes(none, shape);
        assert(none + plain =~= list);
    } else {
        lemma_axes_closed(none, shape);
        assert(none + plain + seq![','] =~= list);
        assert forall|i: int| 0 <= i < list.len() implies in_list(#[trigger] list[i]) by {
            if i < plain.len() {
                assert(list[i] == plain[i]);
            }
        }
    }
}

/// What the parts of a header are.
spec fn parted(h: Seq<char>, descr: Seq<char>, mid: Seq<char>, list: Seq<char>) -> bool {
    let d = 11int + descr.len();
    let m = d + mid.len();
    let l = m + list.len();
    &&& h.len() >= l + 4
    &&& forall|i: int| 0 <= i < 11 ==> h[i] == #[trigger] ("{'descr': '"@)[i]
    &&& forall|i: int| 0 <= i < descr.len() ==> h[11 + i] == #[trigger] descr[i]
    &&& forall|i: int| 0 <= i < mid.len() ==> h[d + i] == #[trigger] mid[i]
    &&& forall|i: int| 0 <= i < list.len() ==> h[m + i] == #[trigger] list[i]
    &&& h[l] == ')'
    &&& h[l + 1] == ','
    &&& h[l + 2] == ' '
    &&& h[l + 3] == '}'
    &&& forall|i: int| l + 4 <= i < h.len() ==> #[trigger] h[i] == ' ' || h[i] == '\n'
}

proof fn lemma_parted(descr: Seq<char>, fortran: bool, list: Seq<char>, filling: Seq<char>)
    requires
        is_filling(filling),
    ensures
        parted(numpy_header(descr, fortran, list, filling), descr, ordering(fortran), list),
        "{'descr': '"@.len() == 11,
        numpy_header(descr, fortran, list, filling).len() == 15 + descr.len() + ordering(
            fortran,
        ).len() + list.len() + filling.len(),
{
    reveal_strlit("{'descr': '");
    reveal_strlit("), }");
    let head = "{'descr': '"@;
    let mid = ordering(fortran);
    let h = numpy_header(descr, fortran, list, filling);
    let d = 11int + descr.len();
    let m = d + mid.len();
    let l = m + list.len();
    let a = head + descr;
    let b = a + mid;
    let c = b + list;
    let e = c + "), }"@;
    assert(h == e + filling);
    assert forall|i: int| 0 <= i < 11 implies h[i] == #[trigger] ("{'descr': '"@)[i] by {
        assert(e[i] == c[i] && c[i] == b[i] && b[i] == a[i]);
    }
    assert forall|i: int| 0 <= i < descr.len() implies h[11 + i] == #[trigger] descr[i] by {
        assert(e[11 + i] == c[11 + i] && c[11 + i] == b[11 + i] && b[11 + i] == a[11 + i]);
    }
    assert forall|i: int| 0 <= i < mid.len() implies h[d + i] == #[trigger] mid[i] by {
        assert(e[d + i] == c[d + i] && c[d + i] == b[d + i]);
    }
    assert forall|i: int| 0 <= i < list.len() implies h[m + i] == #[trigger] list[i] by {
        assert(e[m + i] == c[m + i]);
    }
    assert(e[l] == "), }"@[0] && e[l + 1] == "), }"@[1]);
    assert(e[l + 2] == "), }"@[2] && e[l + 3] == "), }"@[3]);
    assert forall|i: int| l + 4 <= i < h.len() implies #[trigger] h[i] == ' ' || h[i] == '\n' by {
        assert(h[i] == filling[i - l - 4]);
    }
}

proof fn lemma_numpy_descriptor(
    h: Seq<char>,
    descr: Seq<char>,
    body: Seq<char>,
    mid: Seq<char>,
    list: Seq<char>,
)
    requires
        parted(h, descr, mid, list),
        describes(descr, body),
        mid.len() > 0,
        mid[0] == '\'',
    ensures
        npy::descriptor(h) == Some((11int, 11int + descr.len())),
        h.subrange(11, 11int + descr.len()) == descr,
{
    let head = "{'descr': '"@;
    reveal_strlit("{'descr': '");
    reveal_strlit("'descr'");
    let key = "'descr'"@;
    lemma_body(descr, body);
    assert(h[0] == head[0] && h[1] == head[1] && h[2] == head[2] && h[3] == head[3] && h[4]
        == head[4] && h[5] == head[5] && h[6] == head[6] && h[7] == head[7] && h[8] == head[8]
        && h[9] == head[9] && h[10] == head[10]);
    assert(h.subrange(1, 8) =~= key);
    lemma_found_at(h, key, 0, 1);
    lemma_found_char_at(h, ':', 8, 8);
    reveal_with_fuel(search::past_white, 3);
    assert(search::past_white(h, 9) == 10);
    let end = 11int + descr.len();
    assert(h[end + 0int] == mid[0]);
    assert forall|i: int| 11 <= i < end implies h[i] != '\'' by {
        assert(h[11 + (i - 11)] == descr[i - 11]);
    }
    lemma_found_char_at(h, '\'', 11, end);
    assert(h.subrange(11, end) =~= descr) by {
        assert forall|i: int| 0 <= i < descr.len() implies h[11 + i] == descr[i] by {}
    }
}

proof fn lemma_numpy_order(
    h: Seq<char>,
    descr: Seq<char>,
    body: Seq<char>,
    fortran: bool,
    list: Seq<char>,
)
    requires
        parted(h, descr, ordering(fortran), list),
        describes(descr, body),
        forall|i: int| 0 <= i < list.len() ==> in_list(#[trigger] list[i]),
    ensures
        npy::is_fortran(h) == fortran,
{
    let head = "{'descr': '"@;
    let mid = ordering(fortran);
    reveal_strlit("{'descr': '");
    reveal_strlit("', 'fortran_order': True, 'shape': (");
    reveal_strlit("', 'fortran_order': False, 'shape': (");
    reveal_strlit("'fortran_order': True");
    reveal_strlit("\"fortran_order\": True");
    lemma_body(descr, body);
    let d = 11int + descr.len();
    if fortran {
        let key = "'fortran_order': True"@;
        assert forall|i: int| 0 <= i < 21 implies h[d + 3 + i] == #[trigger] key[i] by {
            assert(h[d + (3 + i)] == mid[3 + i]);
            assert(mid[3 + i] == key[i]) by {
                lemma_order_key(i);
            }
        }
        assert(h.subrange(d + 3, d + 3 + 21) =~= key);
        assert(search::stands(h, key, d + 3, h.len() as int));
        search::lemma_found_first(h, key, 0, h.len() as int);
    } else {
        reveal_with_fuel(lacks, 39);
        assert(lacks(head, 'T', 11));
        lemma_lacks(head, 'T', 11);
        assert(lacks(mid, 'T', 37));
        lemma_lacks(mid, 'T', 37);
        let m = d + mid.len();
        let l = m + list.len();
        assert forall|i: int| 0 <= i < h.len() implies h[i] != 'T' by {
            if i < 11 {
                assert(h[i] == head[i]);
            } else if i < d {
                assert(h[11 + (i - 11)] == descr[i - 11]);
            } else if i < m {
                assert(h[d + (i - d)] == mid[i - d]);
            } else if i < l {
                assert(h[m + (i - m)] == list[i - m]);
            } else if i >= l + 4 {
                assert(h[i] == ' ' || h[i] == '\n');
            }
        }
        lemma_absent(h, "'fortran_order': True"@, 17, 0);
        lemma_absent(h, "\"fortran_order\": True"@, 17, 0);
    }
}

proof fn lemma_order_key(i: int)
    requires
        0 <= i < 21,
    ensures
        ("', 'fortran_order': True, 'shape': ("@)[3 + i] == ("'fortran_order': True"@)[i],
{
    reveal_strlit("', 'fortran_order': True, 'shape': (");
    reveal_strlit("'fortran_order': True");
    assert(i == 0 || i == 1 || i == 2 || i == 3 || i == 4 || i == 5 || i == 6 || i == 7 || i == 8
        || i == 9 || i == 10 || i == 11 || i == 12 || i == 13 || i == 14 || i == 15 || i == 16
        || i == 17 || i == 18 || i == 19 || i == 20);
}

proof fn lemma_numpy_shape(
    h: Seq<char>,
    descr: Seq<char>,
    body: Seq<char>,
    fortran: bool,
    list: Seq<char>,
)
    requires
        parted(h, descr, ordering(fortran), list),
        describes(descr, body),
        forall|i: int| 0 <= i < list.len() ==> in_list(#[trigger] list[i]),
    ensures
        ({
            let m = 11int + descr.len() + ordering(fortran).len();
            &&& npy::shape_span(h) == Some(Ok::<(int, int), ErrorView>((m, m + list.len())))
            &&& h.subrange(m, m + list.len()) == list
        }),
{
    let head = "{'descr': '"@;
    let mid = ordering(fortran);
    reveal_strlit("{'descr': '");
    reveal_strlit("', 'fortran_order': True, 'shape': (");
    reveal_strlit("', 'fortran_order': False, 'shape': (");
    reveal_strlit("'shape'");
    let key = "'shape'"@;
    lemma_body(descr, body);
    let d = 11int + descr.len();
    let off = mid.len() - 10;
    let m = d + mid.len();
    let l = m + list.len();
    reveal_with_fuel(lacks_pair, 29);
    assert(lacks_pair(head, '\'', 's', 10));
    lemma_lacks_pair(head, '\'', 's', 10);
    assert(lacks_pair(mid, '\'', 's', off as nat)) by {
        if fortran {
            assert(lacks_pair(mid, '\'', 's', 26));
        } else {
            assert(lacks_pair(mid, '\'', 's', 27));
        }
    }
    lemma_lacks_pair(mid, '\'', 's', off as nat);
    assert forall|i: int| 0 <= i < d + off implies #[trigger] h[i] != key[0] || h[i + 1]
        != key[1] by {
        if i < 10 {
            assert(h[i] == head[i]);
            assert(h[i + 1] == head[i + 1]);
        } else if i == 10 {
            assert(h[11int + 0int] == descr[0]);
        } else if i < d {
            assert(h[11 + (i - 11)] == descr[i - 11]);
        } else {
            assert(h[d + (i - d)] == mid[i - d]);
            assert(h[d + (i + 1 - d)] == mid[i + 1 - d]);
        }
    }
    assert(h[d + off] == mid[off] && h[d + (off + 1)] == mid[off + 1] && h[d + (off + 2)]
        == mid[off + 2] && h[d + (off + 3)] == mid[off + 3] && h[d + (off + 4)] == mid[off + 4]
        && h[d + (off + 5)] == mid[off + 5] && h[d + (off + 6)] == mid[off + 6] && h[d + (off + 7)]
        == mid[off + 7] && h[d + (off + 8)] == mid[off + 8] && h[d + (off + 9)] == mid[off + 9]);
    assert(h.subrange(d + off, d + off + 7) =~= key);
    lemma_found_at(h, key, 0, d + off);
    lemma_found_char_at(h, '(', d + off, m - 1);
    assert forall|i: int| d + off <= i < l implies h[i] != ')' by {
        if i >= m {
            assert(h[m + (i - m)] == list[i - m]);
        }
    }
    lemma_found_char_at(h, ')', d + off, l);
    assert(h.subrange(m, l) =~= list) by {
        assert forall|i: int| 0 <= i < list.len() implies h[m + i] == list[i] by {}
    }
}

proof fn lemma_numpy_ascii(
    descr: Seq<char>,
    body: Seq<char>,
    fortran: bool,
    list: Seq<char>,
    filling: Seq<char>,
)
    requires
        describes(descr, body),
        is_filling(filling),
        forall|i: int| 0 <= i < list.len() ==> in_list(#[trigger] list[i]),
    ensures
        utf8::is_ascii_chars(numpy_header(descr, fortran, list, filling)),
{
    let h = numpy_header(descr, fortran, list, filling);
    let head = "{'descr': '"@;
    let mid = ordering(fortran);
    lemma_parted(descr, fortran, list, filling);
    lemma_body(descr, body);
    reveal_strlit("{'descr': '");
    reveal_strlit("', 'fortran_order': True, 'shape': (");
    reveal_strlit("', 'fortran_order': False, 'shape': (");
    assert(utf8::is_ascii_chars(head));
    assert(utf8::is_ascii_chars(mid));
    let d = 11int + descr.len();
    let m = d + mid.len();
    let l = m + list.len();
    assert forall|i: int| 0 <= i < h.len() implies '\0' <= #[trigger] h[i] <= '\u{7f}' by {
        if i < 11 {
            assert(h[i] == head[i]);
        } else if i < d {
            assert(h[11 + (i - 11)] == descr[i - 11]);
        } else if i < m {
            assert(h[d + (i - d)] == mid[i - d]);
        } else if i < l {
            assert(h[m + (i - m)] == list[i - m]);
        } else if i >= l + 4 {
            assert(h[i] == ' ' || h[i] == '\n');
        } else {
            assert(i == l || i == l + 1 || i == l + 2 || i == l + 3);
        }
    }
}

/// The descriptor of a type has the reading of that type.
proof fn lemma_elements_of(descr: Seq<char>, body: Seq<char>, payload: Seq<u8>, count: nat, j: int)
    requires
        describes(descr, body),
        0 <= j < count,
        count * bytes_of(body) <= payload.len(),
    ensures
        NpyDtype::named(descr)->0.size_spec() == bytes_of(body),
        NpyDtype::named(descr)->0.element_spec().words_spec(payload, count)[j] == element_at(
            body,
            payload,
            j * bytes_of(body),
        ),
{
    lemma_body(descr, body);
    lemma_size(descr, body);
    power2::lemma2_to64();
    power2::lemma2_to64_rest();
    let e = NpyDtype::named(descr)->0.element_spec();
    let w = bytes_of(body);
    assert(0 <= j * w && (j + 1) * w <= count * w && (j + 1) * w == j * w + w) by (nonlinear_arith)
        requires
            0 <= j < count,
            w >= 0,
    ;
    let run = payload.subrange(j * w, (j + 1) * w);
    assert forall|i: int| 0 <= i < w implies #[trigger] run[i] == payload[j * w + i] by {}
    safetensors_laws::lemma_le(run);
    assert(e.words_spec(payload, count)[j] == e.word_spec(numbers::le_value(run)));
}

proof fn lemma_size(descr: Seq<char>, body: Seq<char>)
    requires
        describes(descr, body),
    ensures
        NpyDtype::named(descr) is Some,
        NpyDtype::named(descr)->0.size_spec() == bytes_of(body),
        NpyDtype::named(descr)->0.element_spec().width_spec() == bytes_of(body),
{
    lemma_body(descr, body);
}

proof fn lemma_elements_front(shape: Seq<usize>)
    requires
        shape.len() > 0,
    ensures
        tensor::elements(shape) == shape[0] * tensor::elements(shape.drop_first()),
    decreases shape.len(),
{
    let rest = shape.drop_first();
    if shape.len() == 1 {
        assert(shape.drop_last() =~= Seq::<usize>::empty());
        assert(rest =~= Seq::<usize>::empty());
        assert(tensor::elements(rest) == 1);
        assert(tensor::elements(shape) == tensor::elements(shape.drop_last()) * shape[0]);
        assert(1 * shape[0] == shape[0] && shape[0] * 1 == shape[0]);
    } else {
        lemma_elements_front(shape.drop_last());
        assert(tensor::elements(shape) == tensor::elements(shape.drop_last()) * shape.last());
        assert(tensor::elements(rest) == tensor::elements(rest.drop_last()) * rest.last());
        assert(shape.drop_last().drop_first() =~= rest.drop_last());
        assert(shape.drop_last()[0] == shape[0]);
        assert(rest.last() == shape.last());
        let inner = tensor::elements(rest.drop_last()) as int;
        assert((shape[0] * inner) * shape.last() == shape[0] * (inner * shape.last()))
            by (nonlinear_arith);
    }
}

proof fn lemma_column_last(shape: Seq<usize>, index: Seq<int>)
    requires
        shape.len() > 0,
        index.len() == shape.len(),
    ensures
        column_index(shape, index) == column_index(shape.drop_last(), index.drop_last())
            + tensor::elements(shape.drop_last()) * index.last(),
    decreases shape.len(),
{
    let rest = shape.drop_first();
    let places = index.drop_first();
    if shape.len() == 1 {
        assert(column_index(rest, places) == 0);
        assert(column_index(shape.drop_last(), index.drop_last()) == 0);
        assert(tensor::elements(shape.drop_last()) == 1);
        assert(shape[0] * 0 == 0);
    } else {
        lemma_column_last(rest, places);
        lemma_elements_front(shape.drop_last());
        assert(shape.drop_last().drop_first() =~= rest.drop_last());
        assert(index.drop_last().drop_first() =~= places.drop_last());
        assert(index.drop_last()[0] == index[0]);
        assert(shape.drop_last()[0] == shape[0]);
        let c = column_index(rest.drop_last(), places.drop_last());
        let e = tensor::elements(rest.drop_last()) as int;
        let x = index.last();
        assert(shape[0] * (c + e * x) == shape[0] * c + (shape[0] * e) * x) by (nonlinear_arith);
    }
}

proof fn lemma_row_bound(shape: Seq<usize>, index: Seq<int>)
    requires
        lies_in(index, shape),
    ensures
        0 <= row_index(shape, index) < tensor::elements(shape),
    decreases shape.len(),
{
    if shape.len() > 0 {
        lemma_row_bound(shape.drop_last(), index.drop_last());
        let r = row_index(shape.drop_last(), index.drop_last());
        let e = tensor::elements(shape.drop_last()) as int;
        let n = shape.last() as int;
        let x = index.last();
        assert(0 <= r * n + x < e * n) by (nonlinear_arith)
            requires
                0 <= r < e,
                0 <= x < n,
        ;
    }
}

proof fn lemma_place(shape: Seq<usize>, index: Seq<int>)
    requires
        lies_in(index, shape),
    ensures
        npy::fortran_place(shape, row_index(shape, index)) == column_index(shape, index),
    decreases shape.len(),
{
    if shape.len() > 0 {
        lemma_place(shape.drop_last(), index.drop_last());
        lemma_column_last(shape, index);
        lemma_row_bound(shape.drop_last(), index.drop_last());
        let r = row_index(shape.drop_last(), index.drop_last());
        let n = shape.last() as int;
        let x = index.last();
        assert((r * n + x) % n == x && (r * n + x) / n == r) by (nonlinear_arith)
            requires
                0 <= r,
                0 <= x < n,
        ;
        let e = tensor::elements(shape.drop_last()) as int;
        assert(x * e == e * x) by (nonlinear_arith);
    }
}

/// One axis reads the same in either order.
proof fn lemma_one_axis(shape: Seq<usize>, index: Seq<int>)
    requires
        lies_in(index, shape),
        shape.len() <= 1,
    ensures
        row_index(shape, index) == column_index(shape, index),
{
    if shape.len() == 1 {
        assert(row_index(shape.drop_last(), index.drop_last()) == 0);
        assert(column_index(shape.drop_first(), index.drop_first()) == 0);
        assert(0 * shape.last() == 0);
        assert(shape[0] * 0 == 0);
    }
}

/// A header asks for the first axis to vary fastest exactly where it says so, in quotes
/// of either kind.
pub proof fn law_a_header_says_its_order(h: Seq<char>)
    ensures
        npy::is_fortran(h) <==> {
            ||| exists|before: Seq<char>, after: Seq<char>|
                h == #[trigger] (before + "'fortran_order': True"@ + after)
            ||| exists|before: Seq<char>, after: Seq<char>|
                h == #[trigger] (before + "\"fortran_order\": True"@ + after)
        },
{
    reveal_strlit("'fortran_order': True");
    reveal_strlit("\"fortran_order\": True");
    search::law_a_pattern_is_found_where_it_first_stands(h, "'fortran_order': True"@);
    search::law_a_pattern_is_found_where_it_first_stands(h, "\"fortran_order\": True"@);
}

/// A file as NumPy writes it reads as its array: the axes are the header's, and the
/// element at some indices is the one that stands in the payload where those indices put
/// it, first axis fastest or last axis fastest as the header says, whatever the type.
pub proof fn law_a_numpy_file_reads_in_rows(
    bytes: Seq<u8>,
    descr: Seq<char>,
    body: Seq<char>,
    fortran: bool,
    list: Seq<char>,
    shape: Seq<usize>,
    filling: Seq<char>,
)
    requires
        describes(descr, body),
        lists(list, shape),
        is_filling(filling),
        tensor::countable(shape),
        tensor::elements(shape) * bytes_of(body) <= usize::MAX,
        ({
            let header = utf8::encode_utf8(numpy_header(descr, fortran, list, filling));
            &&& header.len() < 0x10000
            &&& bytes.len() >= 10 + header.len() + tensor::elements(shape) * bytes_of(body)
            &&& bytes.take(6) == seq![0x93u8, 0x4eu8, 0x55u8, 0x4du8, 0x50u8, 0x59u8]
            &&& bytes[6] == 1
            &&& bytes[8] + 256 * bytes[9] == header.len()
            &&& bytes.subrange(10, 10int + header.len()) == header
        }),
    ensures
        npy::reading(bytes) matches Some(Ok(array)) && {
            let start = 10 + numpy_header(descr, fortran, list, filling).len();
            &&& array.shape == shape
            &&& array.data.len() == tensor::elements(shape)
            &&& forall|index: Seq<int>| #[trigger]
                lies_in(index, shape) ==> array.data[row_index(shape, index)] == element_at(
                    body,
                    bytes.skip(start as int),
                    if fortran {
                        column_index(shape, index)
                    } else {
                        row_index(shape, index)
                    } * bytes_of(body),
                )
        },
{
    let h = numpy_header(descr, fortran, list, filling);
    let header = utf8::encode_utf8(h);
    lemma_lists(list, shape);
    lemma_numpy_ascii(descr, body, fortran, list, filling);
    utf8::is_ascii_chars_encode_utf8(h);
    utf8::encode_utf8_valid_utf8(h);
    utf8::encode_utf8_decode_utf8(h);
    lemma_parted(descr, fortran, list, filling);
    reveal_strlit("', 'fortran_order': True, 'shape': (");
    reveal_strlit("', 'fortran_order': False, 'shape': (");
    lemma_numpy_descriptor(h, descr, body, ordering(fortran), list);
    lemma_numpy_order(h, descr, body, fortran, list);
    lemma_numpy_shape(h, descr, body, fortran, list);
    lemma_body(descr, body);
    lemma_size(descr, body);
    let length = bytes.subrange(8, 10);
    safetensors_laws::lemma_le(length);
    assert(length[0] == bytes[8] && length[1] == bytes[9]);
    let end = 10 + header.len() as int;
    assert(npy::opened(bytes) == Some(Ok::<(int, int), ErrorView>((10, end))));
    assert(bytes.subrange(10, end) == header);
    let dtype = NpyDtype::named(descr)->0;
    assert(npy::described(h) == Some(
        Ok::<HeaderView, ErrorView>(HeaderView { dtype, fortran, shape }),
    ));
    let payload = bytes.skip(end);
    let count = tensor::elements(shape);
    assert(shape.take(shape.len() as int) =~= shape);
    assert(count * dtype.size_spec() == count * bytes_of(body));
    let stored = dtype.element_spec().words_spec(payload, count);
    let array = npy::reading(bytes)->0->Ok_0;
    assert forall|index: Seq<int>| #[trigger]
        lies_in(index, shape) implies array.data[row_index(shape, index)] == element_at(
        body,
        payload,
        if fortran {
            column_index(shape, index)
        } else {
            row_index(shape, index)
        } * bytes_of(body),
    ) by {
        lemma_row_bound(shape, index);
        let i = row_index(shape, index);
        if fortran && shape.len() > 1 {
            lemma_place(shape, index);
            npy::law_fortran_places_lie_inside(shape, i);
            lemma_elements_of(descr, body, payload, count, npy::fortran_place(shape, i));
        } else {
            if fortran {
                lemma_one_axis(shape, index);
            }
            lemma_elements_of(descr, body, payload, count, i);
        }
    }
}

} // verus!
