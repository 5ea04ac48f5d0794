//! Text building: decimal numbers and templates with named holes.
//!
//! A template is ordinary text in which `${name}` marks a hole. Filling it
//! replaces every hole whose name is bound and leaves everything else alone.

use vstd::prelude::*;
use vstd::string::*;

verus! {

// ------------------------------------------------------------------- decimals

/// The character of a decimal digit.
pub open spec fn digit_char(d: nat) -> char {
    if d == 0 {
        '0'
    } else if d == 1 {
        '1'
    } else if d == 2 {
        '2'
    } else if d == 3 {
        '3'
    } else if d == 4 {
        '4'
    } else if d == 5 {
        '5'
    } else if d == 6 {
        '6'
    } else if d == 7 {
        '7'
    } else if d == 8 {
        '8'
    } else {
        '9'
    }
}

/// A number in decimal, without leading zeros.
pub open spec fn decimal(n: nat) -> Seq<char>
    decreases n,
{
    if n < 10 {
        seq![digit_char(n)]
    } else {
        decimal(n / 10).push(digit_char(n % 10))
    }
}

fn digit_text(d: u64) -> (r: &'static str)
    requires
        d < 10,
    ensures
        r@ == seq![digit_char(d as nat)],
{
    proof {
        reveal_strlit("0");
        reveal_strlit("1");
        reveal_strlit("2");
        reveal_strlit("3");
        reveal_strlit("4");
        reveal_strlit("5");
        reveal_strlit("6");
        reveal_strlit("7");
        reveal_strlit("8");
        reveal_strlit("9");
    }
    if d == 0 {
        "0"
    } else if d == 1 {
        "1"
    } else if d == 2 {
        "2"
    } else if d == 3 {
        "3"
    } else if d == 4 {
        "4"
    } else if d == 5 {
        "5"
    } else if d == 6 {
        "6"
    } else if d == 7 {
        "7"
    } else if d == 8 {
        "8"
    } else {
        "9"
    }
}

/// `n` in decimal.
pub fn decimal_text(n: u64) -> (r: String)
    ensures
        r@ == decimal(n as nat),
    decreases n,
{
    if n < 10 {
        String::from_str(digit_text(n))
    } else {
        let mut out = decimal_text(n / 10);
        out.append(digit_text(n % 10));
        out
    }
}

// ------------------------------------------------------------------ templates

/// The bindings of a template's holes, in order. Of two bindings of one name the
/// first counts.
pub type Bindings = Seq<(Seq<char>, Seq<char>)>;

/// The text bound to `name`, if there is one.
pub open spec fn bound(holes: Bindings, name: Seq<char>) -> Option<Seq<char>>
    decreases holes.len(),
{
    if holes.len() == 0 {
        None
    } else if holes[0].0 == name {
        Some(holes[0].1)
    } else {
        bound(holes.drop_first(), name)
    }
}

/// No hole bound.
pub open spec fn no_holes() -> Bindings {
    Seq::empty()
}

/// Whether a hole opens at `i`.
pub open spec fn opens_at(t: Seq<char>, i: int) -> bool {
    0 <= i && i + 1 < t.len() && t[i] == '$' && t[i + 1] == '{'
}

/// The first closing brace at or after `i`; the length when there is none.
pub open spec fn close_at(t: Seq<char>, i: int) -> int
    decreases t.len() - i,
{
    if i < 0 || i >= t.len() {
        t.len() as int
    } else if t[i] == '}' {
        i
    } else {
        close_at(t, i + 1)
    }
}

/// `t` from `i` on with every bound hole replaced.
pub open spec fn filled_from(t: Seq<char>, i: int, holes: Bindings) -> Seq<char>
    decreases t.len() - i,
    via filled_from_decreases
{
    if i < 0 || i >= t.len() {
        Seq::empty()
    } else if opens_at(t, i) && close_at(t, i) < t.len() {
        let close = close_at(t, i);
        let name = t.subrange(i + 2, close);
        let text = match bound(holes, name) {
            Some(value) => value,
            None => t.subrange(i, close + 1),
        };
        text + filled_from(t, close + 1, holes)
    } else {
        seq![t[i]] + filled_from(t, i + 1, holes)
    }
}

#[via_fn]
proof fn filled_from_decreases(t: Seq<char>, i: int, holes: Bindings) {
    if 0 <= i < t.len() {
        lemma_close_at(t, i);
    }
}

/// `t` with every bound hole replaced by its text.
pub open spec fn filled(t: Seq<char>, holes: Bindings) -> Seq<char> {
    filled_from(t, 0, holes)
}

pub proof fn lemma_close_at(t: Seq<char>, i: int)
    requires
        0 <= i <= t.len(),
    ensures
        i <= close_at(t, i) <= t.len(),
        close_at(t, i) < t.len() ==> t[close_at(t, i)] == '}',
        forall|k: int| i <= k < close_at(t, i) ==> t[k] != '}',
    decreases t.len() - i,
{
    if i < t.len() && t[i] != '}' {
        lemma_close_at(t, i + 1);
    }
}

/// A stretch without a fillable hole is copied.
proof fn lemma_filled_plain(t: Seq<char>, i: int, j: int, holes: Bindings)
    requires
        0 <= i <= j <= t.len(),
        forall|k: int| i <= k < j ==> !opens_at(t, k) || close_at(t, k) >= t.len(),
    ensures
        filled_from(t, i, holes) == t.subrange(i, j) + filled_from(t, j, holes),
    decreases j - i,
{
    if i < j {
        assert(!opens_at(t, i) || close_at(t, i) >= t.len());
        lemma_filled_plain(t, i + 1, j, holes);
        assert(t.subrange(i, j) =~= seq![t[i]] + t.subrange(i + 1, j));
        assert(t.subrange(i, j) + filled_from(t, j, holes) =~= seq![t[i]] + (t.subrange(i + 1, j)
            + filled_from(t, j, holes)));
    } else {
        assert(t.subrange(i, j) =~= Seq::<char>::empty());
        assert(t.subrange(i, j) + filled_from(t, j, holes) =~= filled_from(t, j, holes));
    }
}

/// The holes of a template, each with its text.
pub struct Holes {
    names: Vec<String>,
    texts: Vec<String>,
}

impl View for Holes {
    type V = Bindings;

    closed spec fn view(&self) -> Bindings {
        Seq::new(
            if self.names@.len() <= self.texts@.len() {
                self.names@.len()
            } else {
                self.texts@.len()
            },
            |i: int| (self.names@[i]@, self.texts@[i]@),
        )
    }
}

impl Holes {
    #[verifier::type_invariant]
    spec fn paired(self) -> bool {
        self.names@.len() == self.texts@.len()
    }

    /// No hole bound.
    pub fn new() -> (r: Self)
        ensures
            r@ == no_holes(),
    {
        let r = Holes { names: Vec::new(), texts: Vec::new() };
        assert(r@ =~= Seq::<(Seq<char>, Seq<char>)>::empty());
        r
    }

    /// Also binds `name` to `value`.
    pub fn text(self, name: &str, value: &str) -> (r: Self)
        ensures
            r@ == self@.push((name@, value@)),
    {
        proof {
            use_type_invariant(&self);
        }
        let Holes { mut names, mut texts } = self;
        names.push(String::from_str(name));
        texts.push(String::from_str(value));
        let r = Holes { names, texts };
        assert(r@ =~= self@.push((name@, value@)));
        r
    }

    /// Also binds `name` to `n` in decimal.
    pub fn number(self, name: &str, n: usize) -> (r: Self)
        ensures
            r@ == self@.push((name@, decimal(n as nat))),
    {
        let value = decimal_text(n as u64);
        self.text(name, value.as_str())
    }

    /// Also binds `name` to `n` in decimal.
    pub fn word(self, name: &str, n: u64) -> (r: Self)
        ensures
            r@ == self@.push((name@, decimal(n as nat))),
    {
        let value = decimal_text(n);
        self.text(name, value.as_str())
    }

    fn lookup(&self, name: &str) -> (r: Option<&String>)
        ensures
            match r {
                Some(value) => bound(self@, name@) == Some(value@),
                None => bound(self@, name@) is None,
            },
    {
        proof {
            use_type_invariant(self);
        }
        let mut i: usize = 0;
        assert(self@.skip(0) =~= self@);
        while i < self.names.len()
            invariant
                i <= self.names@.len(),
                self.names@.len() == self.texts@.len(),
                self@.len() == self.names@.len(),
                bound(self@, name@) == bound(self@.skip(i as int), name@),
            decreases self.names@.len() - i,
        {
            assert(self@.skip(i as int)[0] == self@[i as int]);
            assert(self@.skip(i as int).drop_first() =~= self@.skip(i as int + 1));
            if same_text(self.names[i].as_str(), name) {
                return Some(&self.texts[i]);
            }
            i += 1;
        }
        None
    }
}

/// The characters of `s`.
pub fn chars_of(s: &str) -> (r: Vec<char>)
    ensures
        r@ == s@,
{
    let mut out: Vec<char> = Vec::new();
    for c in it: s.chars()
        invariant
            out@ == it.seq().take(it.index() as int),
            it.seq() == s@,
    {
        out.push(c);
        assert(out@ =~= it.seq().take(it.index() as int + 1));
    }
    assert(out@ =~= s@);
    out
}

/// Whether two texts hold the same characters.
pub fn same_text(a: &str, b: &str) -> (r: bool)
    ensures
        r == (a@ == b@),
{
    let x: Vec<char> = chars_of(a);
    let y: Vec<char> = chars_of(b);
    if x.len() != y.len() {
        return false;
    }
    let mut i: usize = 0;
    while i < x.len()
        invariant
            i <= x@.len(),
            x@.len() == y@.len(),
            x@ == a@,
            y@ == b@,
            forall|k: int| 0 <= k < i ==> x@[k] == y@[k],
        decreases x@.len() - i,
    {
        if x[i] != y[i] {
            assert(a@[i as int] != b@[i as int]);
            return false;
        }
        i += 1;
    }
    assert(a@ =~= b@);
    true
}

/// `template` with every bound hole replaced by its text.
pub fn fill(template: &str, holes: &Holes) -> (r: String)
    ensures
        r@ == filled(template@, holes@),
{
    let chars: Vec<char> = chars_of(template);
    let ghost t = template@;
    let mut out = String::new();
    let mut start: usize = 0;
    let mut i: usize = 0;
    while i < chars.len()
        invariant
            chars@ == t,
            t == template@,
            start <= i <= t.len(),
            out@ + filled_from(t, start as int, holes@) == filled(t, holes@),
            forall|k: int| start <= k < i ==> !opens_at(t, k) || close_at(t, k) >= t.len(),
        decreases t.len() - i,
    {
        if chars[i] == '$' && i + 1 < chars.len() && chars[i + 1] == '{' {
            proof {
                lemma_close_at(t, i as int);
            }
            let mut close: usize = i;
            while close < chars.len() && chars[close] != '}'
                invariant
                    chars@ == t,
                    i <= close <= t.len(),
                    close_at(t, i as int) == close_at(t, close as int),
                decreases t.len() - close,
            {
                close += 1;
            }
            if close < chars.len() {
                proof {
                    lemma_filled_plain(t, start as int, i as int, holes@);
                    assert(t[i as int + 1] != '}');
                    assert(t[i as int] != '}');
                    assert(close >= i + 2);
                }
                let plain = template.substring_char(start, i);
                let name = template.substring_char(i + 2, close);
                let ghost before = out@;
                out.append(plain);
                match holes.lookup(name) {
                    Some(value) => {
                        out.append(value.as_str());
                    },
                    None => {
                        out.append(template.substring_char(i, close + 1));
                    },
                }
                proof {
                    let text = match bound(holes@, name@) {
                        Some(value) => value,
                        None => t.subrange(i as int, close + 1),
                    };
                    assert(out@ == before + t.subrange(start as int, i as int) + text);
                    assert(filled_from(t, i as int, holes@) == text + filled_from(t, close + 1, holes@));
                    assert(out@ + filled_from(t, close + 1, holes@) =~= before + (t.subrange(
                        start as int,
                        i as int,
                    ) + (text + filled_from(t, close + 1, holes@))));
                }
                start = close + 1;
                i = close + 1;
            } else {
                i += 1;
            }
        } else {
            i += 1;
        }
    }
    proof {
        lemma_filled_plain(t, start as int, i as int, holes@);
    }
    let ghost before = out@;
    out.append(template.substring_char(start, chars.len()));
    proof {
        assert(filled_from(t, i as int, holes@) =~= Seq::<char>::empty());
        assert(out@ =~= before + filled_from(t, start as int, holes@));
    }
    out
}

// ------------------------------------------------------------ lists of pieces

/// `head` followed by `tail`.
pub fn concat(head: &str, tail: &str) -> (r: String)
    ensures
        r@ == head@ + tail@,
{
    let mut r = String::from_str(head);
    r.append(tail);
    r
}

/// `head` followed by a number.
pub fn concat_number(head: &str, n: usize) -> (r: String)
    ensures
        r@ == head@ + decimal(n as nat),
{
    let digits = decimal_text(n as u64);
    concat(head, digits.as_str())
}

/// `f(0) + f(1) + ... + f(n - 1)`.
pub open spec fn repeated(n: nat, f: spec_fn(int) -> Seq<char>) -> Seq<char>
    decreases n,
{
    if n == 0 {
        Seq::empty()
    } else {
        repeated((n - 1) as nat, f) + f(n - 1)
    }
}

/// The characters of each text.
pub open spec fn texts(v: Seq<String>) -> Seq<Seq<char>> {
    Seq::new(v.len(), |i: int| v[i]@)
}

/// The pieces in order with `sep` between neighbours.
pub open spec fn joined(parts: Seq<Seq<char>>, sep: Seq<char>) -> Seq<char>
    decreases parts.len(),
{
    if parts.len() == 0 {
        Seq::empty()
    } else if parts.len() == 1 {
        parts[0]
    } else {
        joined(parts.drop_last(), sep) + sep + parts.last()
    }
}

/// The pieces in order with `sep` between neighbours.
pub fn join(parts: &Vec<String>, sep: &str) -> (r: String)
    ensures
        r@ == joined(texts(parts@), sep@),
{
    let mut out = String::new();
    let ghost all = texts(parts@);
    let mut i: usize = 0;
    while i < parts.len()
        invariant
            i <= parts@.len(),
            all == texts(parts@),
            out@ == joined(all.take(i as int), sep@),
        decreases parts@.len() - i,
    {
        if i > 0 {
            out.append(sep);
        }
        out.append(parts[i].as_str());
        proof {
            let next = all.take(i as int + 1);
            assert(next.drop_last() =~= all.take(i as int));
            assert(next.last() == parts@[i as int]@);
            if i == 0 {
                assert(out@ =~= parts@[0]@);
            }
        }
        i += 1;
    }
    assert(all.take(i as int) =~= all);
    out
}

/// `line` with its hole `k` filled with a number.
pub open spec fn numbered_line(line: Seq<char>, k: nat) -> Seq<char> {
    filled(line, no_holes().push(("k"@, decimal(k))))
}

/// `line` once for each of the numbers below `n`.
pub open spec fn numbered(line: Seq<char>, n: nat) -> Seq<char> {
    repeated(n, |k: int| numbered_line(line, k as nat))
}

/// `line` with its hole `k` filled with a number.
pub fn numbered_line_text(line: &str, k: usize) -> (r: String)
    ensures
        r@ == numbered_line(line@, k as nat),
{
    fill(line, &Holes::new().number("k", k))
}

/// `line` once for each of the numbers below `n`.
pub fn numbered_text(line: &str, n: usize) -> (r: String)
    ensures
        r@ == numbered(line@, n as nat),
{
    let mut out = String::new();
    let mut k: usize = 0;
    while k < n
        invariant
            k <= n,
            out@ == numbered(line@, k as nat),
        decreases n - k,
    {
        out.append(numbered_line_text(line, k).as_str());
        k += 1;
    }
    out
}

/// Each number in decimal.
pub open spec fn decimals(numbers: Seq<usize>) -> Seq<Seq<char>> {
    Seq::new(numbers.len(), |i: int| decimal(numbers[i] as nat))
}

/// Each number in decimal.
pub fn decimal_texts(numbers: &Vec<usize>) -> (r: Vec<String>)
    ensures
        texts(r@) == decimals(numbers@),
{
    let mut parts: Vec<String> = Vec::new();
    let mut i: usize = 0;
    while i < numbers.len()
        invariant
            i <= numbers@.len(),
            parts@.len() == i,
            forall|j: int| 0 <= j < i ==> (#[trigger] parts@[j])@ == decimal(numbers@[j] as nat),
        decreases numbers@.len() - i,
    {
        parts.push(decimal_text(numbers[i] as u64));
        i += 1;
    }
    assert(texts(parts@) =~= decimals(numbers@));
    parts
}

/// Numbers as a list in brackets.
pub open spec fn listed(numbers: Seq<usize>) -> Seq<char> {
    "["@ + joined(decimals(numbers), ", "@) + "]"@
}

/// Numbers as a list in brackets.
pub fn list_text(numbers: &Vec<usize>) -> (r: String)
    ensures
        r@ == listed(numbers@),
{
    let mut r = String::from_str("[");
    r.append(join(&decimal_texts(numbers), ", ").as_str());
    r.append("]");
    r
}

// ------------------------------------------------------------ reading numbers

/// The value of a digit, if the character is one.
pub open spec fn digit_value(c: char) -> Option<nat> {
    if '0' <= c && c <= '9' {
        Some((c as int - '0' as int) as nat)
    } else {
        None
    }
}

/// The value of a run of digits; `None` when a character is not a digit.
pub open spec fn digits_value(s: Seq<char>) -> Option<nat>
    decreases s.len(),
{
    if s.len() == 0 {
        Some(0)
    } else {
        match (digits_value(s.drop_last()), digit_value(s.last())) {
            (Some(high), Some(low)) => Some(high * 10 + low),
            _ => None,
        }
    }
}

/// A non-negative number: an optional `+` and at least one digit, nothing else,
/// and no more than a machine word holds.
pub open spec fn parsed_usize(s: Seq<char>) -> Option<nat> {
    let digits = if s.len() > 0 && s[0] == '+' {
        s.drop_first()
    } else {
        s
    };
    match digits_value(digits) {
        Some(n) => if digits.len() > 0 && n <= usize::MAX {
            Some(n)
        } else {
            None
        },
        None => None,
    }
}

/// Why digits are no number that a machine word holds: the first of them that is none,
/// or that takes the value too far.
pub open spec fn digits_fault(s: Seq<char>) -> Option<Seq<char>>
    decreases s.len(),
{
    if s.len() == 0 {
        None
    } else {
        match digits_fault(s.drop_last()) {
            Some(reason) => Some(reason),
            None => if digit_value(s.last()) is None {
                Some("invalid digit found in string"@)
            } else if digits_value(s).unwrap() > usize::MAX {
                Some("number too large to fit in target type"@)
            } else {
                None
            },
        }
    }
}

/// Why a text is no number; see [`parsed_usize`].
pub open spec fn number_fault(s: Seq<char>) -> Seq<char> {
    let digits = if s.len() > 0 && s[0] == '+' {
        s.drop_first()
    } else {
        s
    };
    if s.len() == 0 {
        "cannot parse integer from empty string"@
    } else if digits.len() == 0 {
        "invalid digit found in string"@
    } else {
        match digits_fault(digits) {
            Some(reason) => reason,
            None => ""@,
        }
    }
}

/// A fault of the first digits is a fault of all.
proof fn lemma_digits_fault(s: Seq<char>, k: int)
    requires
        0 <= k <= s.len(),
        digits_fault(s.take(k)) is Some,
    ensures
        digits_fault(s) == digits_fault(s.take(k)),
    decreases s.len() - k,
{
    if k == s.len() {
        assert(s.take(k) =~= s);
    } else {
        assert(s.take(k + 1).drop_last() =~= s.take(k));
        lemma_digits_fault(s, k + 1);
    }
}

proof fn lemma_digits_prefix(s: Seq<char>, k: int)
    requires
        0 <= k <= s.len(),
    ensures
        digits_value(s.take(k)) is None ==> digits_value(s) is None,
        match (digits_value(s.take(k)), digits_value(s)) {
            (Some(low), Some(high)) => low <= high,
            _ => true,
        },
    decreases s.len() - k,
{
    if k == s.len() {
        assert(s.take(k) =~= s);
    } else {
        lemma_digits_prefix(s, k + 1);
        assert(s.take(k + 1).drop_last() =~= s.take(k));
    }
}

/// Reads a non-negative decimal number, or says why the text is none.
pub fn parse_usize(s: &str) -> (r: Result<usize, &'static str>)
    ensures
        match r {
            Ok(n) => parsed_usize(s@) == Some(n as nat),
            Err(reason) => parsed_usize(s@) is None && reason@ == number_fault(s@),
        },
{
    let chars: Vec<char> = chars_of(s);
    let start: usize = if chars.len() > 0 && chars[0] == '+' {
        1
    } else {
        0
    };
    let ghost digits = if s@.len() > 0 && s@[0] == '+' {
        s@.drop_first()
    } else {
        s@
    };
    if chars.len() == 0 {
        return Err("cannot parse integer from empty string");
    }
    if start == chars.len() {
        return Err("invalid digit found in string");
    }
    let mut value: usize = 0;
    let mut i: usize = start;
    assert(digits.take(0) =~= Seq::<char>::empty());
    while i < chars.len()
        invariant
            start <= i <= chars@.len(),
            chars@ == s@,
            start == 0 || start == 1,
            start == 1 ==> s@[0] == '+',
            start == 0 ==> s@.len() == 0 || s@[0] != '+',
            digits.len() == s@.len() - start,
            digits == (if s@.len() > 0 && s@[0] == '+' {
                s@.drop_first()
            } else {
                s@
            }),
            forall|k: int| 0 <= k < digits.len() ==> digits[k] == s@[k + start],
            digits.len() > 0,
            digits_value(digits.take(i - start)) == Some(value as nat),
            digits_fault(digits.take(i - start)) is None,
        decreases chars@.len() - i,
    {
        let c = chars[i];
        proof {
            let next = digits.take(i - start + 1);
            assert(next.drop_last() =~= digits.take(i - start));
            assert(next.last() == c);
            lemma_digits_prefix(digits, i - start + 1);
        }
        if c < '0' || c > '9' {
            proof {
                lemma_digits_fault(digits, i - start + 1);
            }
            return Err("invalid digit found in string");
        }
        let low: usize = (c as u32 - 48) as usize;
        match value.checked_mul(10) {
            Some(shifted) => match shifted.checked_add(low) {
                Some(next) => {
                    value = next;
                },
                None => {
                    proof {
                        lemma_digits_fault(digits, i - start + 1);
                    }
                    return Err("number too large to fit in target type");
                },
            },
            None => {
                proof {
                    lemma_digits_fault(digits, i - start + 1);
                }
                return Err("number too large to fit in target type");
            },
        }
        i += 1;
    }
    assert(digits.take(i - start) =~= digits);
    Ok(value)
}

/// Reading back a number in decimal gives the number.
pub proof fn law_decimal_parses_back(n: nat)
    ensures
        digits_value(decimal(n)) == Some(n),
        n <= usize::MAX ==> parsed_usize(decimal(n)) == Some(n),
    decreases n,
{
    if n < 10 {
        assert(decimal(n).drop_last() =~= Seq::<char>::empty());
    } else {
        law_decimal_parses_back(n / 10);
        assert(decimal(n).drop_last() =~= decimal(n / 10));
    }
    lemma_decimal_digits(n);
}

/// A number in decimal is a run of digits.
pub proof fn lemma_decimal_digits(n: nat)
    ensures
        decimal(n).len() > 0,
        forall|k: int| 0 <= k < decimal(n).len() ==> '0' <= #[trigger] decimal(n)[k] <= '9',
    decreases n,
{
    if n >= 10 {
        lemma_decimal_digits(n / 10);
    }
}

} // verus!
