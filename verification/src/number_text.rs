//! The texts that denote a decimal floating-point number.
//!
//! ```text
//! Float    ::= Sign? ( 'inf' | 'infinity' | 'nan' | Decimal )
//! Decimal  ::= Mantissa Exponent?
//! Mantissa ::= Digit+ | Digit+ '.' Digit* | Digit* '.' Digit+
//! Exponent ::= 'e' Sign? Digit+
//! Sign     ::= [+-]
//! Digit    ::= [0-9]
//! ```
//!
//! Letters match in either case.  Nothing may stand before or after the
//! number, not even white space.
//!
//! This is the grammar by which the standard library reads a floating-point
//! number from a string: a text that is a number here is one that
//! `str::parse` turns into a number, and no other is.

use vstd::prelude::*;
use vstd::string::*;

verus! {

/// `[0-9]`
pub open spec fn is_digit(c: char) -> bool {
    '0' <= c <= '9'
}

/// `[+-]`
pub open spec fn is_sign(c: char) -> bool {
    c == '+' || c == '-'
}

/// `c` is the given letter, in either case.
pub open spec fn is_letter(c: char, lower: char, upper: char) -> bool {
    c == lower || c == upper
}

/// `Digit*`
pub open spec fn all_digits(t: Seq<char>) -> bool {
    forall|i: int| 0 <= i < t.len() ==> is_digit(#[trigger] t[i])
}

/// `t` without its leading sign, if it has one.
pub open spec fn without_sign(t: Seq<char>) -> Seq<char> {
    if t.len() > 0 && is_sign(t[0]) {
        t.subrange(1, t.len() as int)
    } else {
        t
    }
}

/// `Digit+ | Digit+ '.' Digit* | Digit* '.' Digit+`
pub open spec fn is_mantissa(t: Seq<char>) -> bool {
    ||| t.len() > 0 && all_digits(t)
    ||| exists|dot: int| #[trigger] has_point_at(t, dot)
}

/// `t` has more than the point at `dot`, and only digits around it.
pub open spec fn has_point_at(t: Seq<char>, dot: int) -> bool {
    &&& 0 <= dot < t.len()
    &&& t.len() > 1
    &&& t[dot] == '.'
    &&& all_digits(t.subrange(0, dot))
    &&& all_digits(t.subrange(dot + 1, t.len() as int))
}

/// `'e' Sign? Digit+`
pub open spec fn is_exponent(t: Seq<char>) -> bool {
    &&& t.len() > 0
    &&& is_letter(t[0], 'e', 'E')
    &&& without_sign(t.subrange(1, t.len() as int)).len() > 0
    &&& all_digits(without_sign(t.subrange(1, t.len() as int)))
}

/// `t` is a mantissa up to `split` and an exponent from there.
pub open spec fn has_exponent_at(t: Seq<char>, split: int) -> bool {
    &&& 0 < split < t.len()
    &&& is_mantissa(t.subrange(0, split))
    &&& is_exponent(t.subrange(split, t.len() as int))
}

/// `Mantissa Exponent?`
pub open spec fn is_decimal(t: Seq<char>) -> bool {
    ||| is_mantissa(t)
    ||| exists|split: int| #[trigger] has_exponent_at(t, split)
}

/// `'inf' | 'infinity' | 'nan'`, in any mix of cases.
pub open spec fn is_special(t: Seq<char>) -> bool {
    ||| {
        &&& t.len() == 3
        &&& is_letter(t[0], 'i', 'I')
        &&& is_letter(t[1], 'n', 'N')
        &&& is_letter(t[2], 'f', 'F')
    }
    ||| {
        &&& t.len() == 3
        &&& is_letter(t[0], 'n', 'N')
        &&& is_letter(t[1], 'a', 'A')
        &&& is_letter(t[2], 'n', 'N')
    }
    ||| {
        &&& t.len() == 8
        &&& is_letter(t[0], 'i', 'I')
        &&& is_letter(t[1], 'n', 'N')
        &&& is_letter(t[2], 'f', 'F')
        &&& is_letter(t[3], 'i', 'I')
        &&& is_letter(t[4], 'n', 'N')
        &&& is_letter(t[5], 'i', 'I')
        &&& is_letter(t[6], 't', 'T')
        &&& is_letter(t[7], 'y', 'Y')
    }
}

/// The texts of the grammar above: `Sign? ( 'inf' | 'infinity' | 'nan' | Decimal )`.
pub open spec fn number_text(t: Seq<char>) -> bool {
    is_special(without_sign(t)) || is_decimal(without_sign(t))
}

/// The first position at or after `from` that holds no digit.
spec fn digit_run(t: Seq<char>, from: int) -> int
    decreases t.len() - from,
{
    if 0 <= from < t.len() && is_digit(t[from]) {
        digit_run(t, from + 1)
    } else {
        from
    }
}

/// The position behind the mantissa that `t` starts with, and whether
/// that mantissa holds a digit.
spec fn mantissa_end(t: Seq<char>) -> (int, bool) {
    let whole = digit_run(t, 0);
    if whole < t.len() && t[whole] == '.' {
        (digit_run(t, whole + 1), digit_run(t, whole + 1) > 1)
    } else {
        (whole, whole > 0)
    }
}

/// `is_decimal`, read from left to right.
spec fn scan_decimal(t: Seq<char>) -> bool {
    let (p, some_digit) = mantissa_end(t);
    if !some_digit {
        false
    } else if p == t.len() {
        true
    } else if !is_letter(t[p], 'e', 'E') {
        false
    } else {
        let q = if p + 1 < t.len() && is_sign(t[p + 1]) {
            p + 2
        } else {
            p + 1
        };
        digit_run(t, q) > q && digit_run(t, q) == t.len()
    }
}

proof fn lemma_digit_run(t: Seq<char>, from: int)
    requires
        0 <= from <= t.len(),
    ensures
        from <= digit_run(t, from) <= t.len(),
        forall|i: int| from <= i < digit_run(t, from) ==> is_digit(#[trigger] t[i]),
        digit_run(t, from) < t.len() ==> !is_digit(t[digit_run(t, from)]),
    decreases t.len() - from,
{
    if from < t.len() && is_digit(t[from]) {
        lemma_digit_run(t, from + 1);
    }
}

/// A run of digits that ends at `end` is the run that `digit_run` finds.
proof fn lemma_digit_run_is(t: Seq<char>, from: int, end: int)
    requires
        0 <= from <= end <= t.len(),
        forall|i: int| from <= i < end ==> is_digit(#[trigger] t[i]),
        end < t.len() ==> !is_digit(t[end]),
    ensures
        digit_run(t, from) == end,
    decreases end - from,
{
    if from < end {
        lemma_digit_run_is(t, from + 1, end);
    }
}

/// Where `t` is a mantissa up to `end` and no digit or point follows, the
/// scan of the mantissa stops at `end`.
proof fn lemma_mantissa_found(t: Seq<char>, end: int)
    requires
        0 <= end <= t.len(),
        is_mantissa(t.subrange(0, end)),
        end < t.len() ==> !is_digit(t[end]) && t[end] != '.',
    ensures
        mantissa_end(t) == (end, true),
{
    let m = t.subrange(0, end);
    if m.len() > 0 && all_digits(m) {
        assert forall|i: int| 0 <= i < end implies is_digit(#[trigger] t[i]) by {
            assert(t[i] == m[i]);
        }
        lemma_digit_run_is(t, 0, end);
    } else {
        let dot = choose|dot: int| #[trigger] has_point_at(m, dot);
        let before = m.subrange(0, dot);
        let after = m.subrange(dot + 1, m.len() as int);
        assert(t[dot] == m[dot]);
        assert forall|i: int| 0 <= i < dot implies is_digit(#[trigger] t[i]) by {
            assert(t[i] == before[i]);
        }
        lemma_digit_run_is(t, 0, dot);
        assert forall|i: int| dot + 1 <= i < end implies is_digit(#[trigger] t[i]) by {
            assert(t[i] == after[i - dot - 1]);
        }
        lemma_digit_run_is(t, dot + 1, end);
    }
}

/// What the scan of the mantissa accepts is a mantissa.
proof fn lemma_mantissa_scanned(t: Seq<char>)
    requires
        mantissa_end(t).1,
    ensures
        0 < mantissa_end(t).0 <= t.len(),
        is_mantissa(t.subrange(0, mantissa_end(t).0)),
        mantissa_end(t).0 < t.len() ==> !is_digit(t[mantissa_end(t).0]),
{
    let whole = digit_run(t, 0);
    lemma_digit_run(t, 0);
    let end = mantissa_end(t).0;
    if whole < t.len() && t[whole] == '.' {
        lemma_digit_run(t, whole + 1);
        let m = t.subrange(0, end);
        assert(all_digits(m.subrange(0, whole)));
        assert(all_digits(m.subrange(whole + 1, m.len() as int)));
        assert(has_point_at(m, whole));
    } else {
        assert(all_digits(t.subrange(0, end)));
    }
}

proof fn lemma_scan_decimal(t: Seq<char>)
    ensures
        scan_decimal(t) == is_decimal(t),
{
    let len = t.len() as int;
    if scan_decimal(t) {
        lemma_mantissa_scanned(t);
        let p = mantissa_end(t).0;
        if p == len {
            assert(t.subrange(0, len) =~= t);
        } else {
            let q = if p + 1 < len && is_sign(t[p + 1]) {
                p + 2
            } else {
                p + 1
            };
            lemma_digit_run(t, q);
            let e = t.subrange(p, len);
            let tail = e.subrange(1, e.len() as int);
            assert(tail =~= t.subrange(p + 1, len));
            assert(without_sign(tail) =~= t.subrange(q, len));
            assert(all_digits(t.subrange(q, len)));
            assert(is_exponent(e));
            assert(has_exponent_at(t, p));
        }
    }
    if is_decimal(t) {
        if is_mantissa(t) {
            assert(t.subrange(0, len) =~= t);
            lemma_mantissa_found(t, len);
        } else {
            let split = choose|split: int| #[trigger] has_exponent_at(t, split);
            let e = t.subrange(split, len);
            let tail = e.subrange(1, e.len() as int);
            assert(t[split] == e[0]);
            lemma_mantissa_found(t, split);
            assert(tail =~= t.subrange(split + 1, len));
            let q = if split + 1 < len && is_sign(t[split + 1]) {
                split + 2
            } else {
                split + 1
            };
            if split + 1 < len {
                assert(t[split + 1] == tail[0]);
            }
            let digits = without_sign(tail);
            assert(digits =~= t.subrange(q, len));
            assert forall|i: int| q <= i < len implies is_digit(#[trigger] t[i]) by {
                assert(t[i] == digits[i - q]);
            }
            lemma_digit_run_is(t, q, len);
        }
    }
}

/// A number's text holds ASCII characters only.
pub proof fn lemma_number_text_is_ascii(t: Seq<char>)
    requires
        number_text(t),
    ensures
        vstd::utf8::is_ascii_chars(t),
{
    let u = without_sign(t);
    let shift = t.len() - u.len();
    assert forall|i: int| 0 <= i < u.len() implies '\0' <= #[trigger] u[i] <= '\u{7f}' by {
        if !is_special(u) {
            lemma_scan_decimal(u);
            lemma_scanned_is_ascii(u, i);
        }
    }
    assert forall|i: int| 0 <= i < t.len() implies '\0' <= #[trigger] t[i] <= '\u{7f}' by {
        if i >= shift {
            assert(t[i] == u[i - shift]);
        }
    }
}

proof fn lemma_scanned_is_ascii(t: Seq<char>, i: int)
    requires
        scan_decimal(t),
        0 <= i < t.len(),
    ensures
        '\0' <= t[i] <= '\u{7f}',
{
    let whole = digit_run(t, 0);
    lemma_digit_run(t, 0);
    if whole < t.len() && t[whole] == '.' {
        lemma_digit_run(t, whole + 1);
    }
    let p = mantissa_end(t).0;
    if p < t.len() {
        let q = if p + 1 < t.len() && is_sign(t[p + 1]) {
            p + 2
        } else {
            p + 1
        };
        lemma_digit_run(t, q);
    }
}

/// `bytes` holds the characters of `t`, one byte each.
spec fn spells(bytes: Seq<u8>, t: Seq<char>) -> bool {
    &&& bytes.len() == t.len()
    &&& forall|i: int| 0 <= i < t.len() ==> (#[trigger] bytes[i]) as int == t[i] as int
}

fn byte_is_digit(b: u8) -> (r: bool)
    ensures
        r == ('0' as u8 <= b && b <= '9' as u8),
{
    '0' as u8 <= b && b <= '9' as u8
}

fn byte_is_sign(b: u8) -> (r: bool)
    ensures
        r == (b == '+' as u8 || b == '-' as u8),
{
    b == '+' as u8 || b == '-' as u8
}

fn byte_is_letter(b: u8, lower: u8, upper: u8) -> (r: bool)
    ensures
        r == (b == lower || b == upper),
{
    b == lower || b == upper
}

/// The end of the run of digits that starts at `from`.
fn digits_end(bytes: &[u8], from: usize, Ghost(t): Ghost<Seq<char>>) -> (end: usize)
    requires
        spells(bytes@, t),
        from <= bytes@.len(),
    ensures
        end == digit_run(t, from as int),
        from <= end <= bytes@.len(),
{
    let mut end: usize = from;
    while end < bytes.len() && byte_is_digit(bytes[end])
        invariant
            spells(bytes@, t),
            from <= end <= bytes@.len(),
            digit_run(t, from as int) == digit_run(t, end as int),
        decreases bytes@.len() - end,
    {
        end += 1;
    }
    end
}

/// Whether the bytes from `from` on spell `inf`, `nan` or `infinity`.
fn special_bytes(bytes: &[u8], from: usize, Ghost(t): Ghost<Seq<char>>) -> (r: bool)
    requires
        spells(bytes@, t),
        from <= bytes@.len(),
    ensures
        r == is_special(t.subrange(from as int, t.len() as int)),
{
    let ghost u = t.subrange(from as int, t.len() as int);
    let n: usize = bytes.len() - from;
    assert(forall|i: int| 0 <= i < n ==> u[i] == t[from + i]);
    if n == 3 {
        let inf = byte_is_letter(bytes[from], 'i' as u8, 'I' as u8) && byte_is_letter(
            bytes[from + 1],
            'n' as u8,
            'N' as u8,
        ) && byte_is_letter(bytes[from + 2], 'f' as u8, 'F' as u8);
        let nan = byte_is_letter(bytes[from], 'n' as u8, 'N' as u8) && byte_is_letter(
            bytes[from + 1],
            'a' as u8,
            'A' as u8,
        ) && byte_is_letter(bytes[from + 2], 'n' as u8, 'N' as u8);
        inf || nan
    } else if n == 8 {
        let inf = byte_is_letter(bytes[from], 'i' as u8, 'I' as u8) && byte_is_letter(
            bytes[from + 1],
            'n' as u8,
            'N' as u8,
        ) && byte_is_letter(bytes[from + 2], 'f' as u8, 'F' as u8);
        let ini = byte_is_letter(bytes[from + 3], 'i' as u8, 'I' as u8) && byte_is_letter(
            bytes[from + 4],
            'n' as u8,
            'N' as u8,
        ) && byte_is_letter(bytes[from + 5], 'i' as u8, 'I' as u8);
        let ty = byte_is_letter(bytes[from + 6], 't' as u8, 'T' as u8) && byte_is_letter(
            bytes[from + 7],
            'y' as u8,
            'Y' as u8,
        );
        inf && ini && ty
    } else {
        false
    }
}

/// Whether the bytes from `from` on spell a decimal number.
fn decimal_bytes(bytes: &[u8], from: usize, Ghost(t): Ghost<Seq<char>>) -> (r: bool)
    requires
        spells(bytes@, t),
        from <= bytes@.len(),
    ensures
        r == is_decimal(t.subrange(from as int, t.len() as int)),
{
    let ghost u = t.subrange(from as int, t.len() as int);
    let len: usize = bytes.len();
    proof {
        lemma_scan_decimal(u);
        lemma_digit_run(u, 0);
        lemma_run_shift(t, from as int, from as int);
    }
    let whole: usize = digits_end(bytes, from, Ghost(t));
    let mut p: usize = whole;
    let mut some_digit: bool = whole > from;
    if whole < len && bytes[whole] == '.' as u8 {
        assert(u[whole - from] == t[whole as int]);
        proof {
            lemma_digit_run(u, whole - from + 1);
            lemma_run_shift(t, from as int, whole + 1);
        }
        p = digits_end(bytes, whole + 1, Ghost(t));
        some_digit = p - from > 1;
    } else if whole < len {
        assert(u[whole - from] == t[whole as int]);
    }
    assert(mantissa_end(u) == (p - from, some_digit));
    if !some_digit {
        return false;
    }
    if p == len {
        return true;
    }
    assert(u[p - from] == t[p as int]);
    if !byte_is_letter(bytes[p], 'e' as u8, 'E' as u8) {
        return false;
    }
    let mut q: usize = p + 1;
    if q < len {
        assert(u[q - from] == t[q as int]);
        if byte_is_sign(bytes[q]) {
            q += 1;
        }
    }
    proof {
        lemma_run_shift(t, from as int, q as int);
    }
    let end: usize = digits_end(bytes, q, Ghost(t));
    end > q && end == len
}

/// A run of digits is found alike in a text and in what is left of it
/// behind `cut`.
proof fn lemma_run_shift(t: Seq<char>, cut: int, from: int)
    requires
        0 <= cut <= from <= t.len(),
    ensures
        digit_run(t.subrange(cut, t.len() as int), from - cut) == digit_run(t, from) - cut,
    decreases t.len() - from,
{
    let u = t.subrange(cut, t.len() as int);
    if from < t.len() {
        assert(u[from - cut] == t[from]);
        if is_digit(t[from]) {
            lemma_run_shift(t, cut, from + 1);
        }
    }
}

/// Whether `text` denotes a number: whether the grammar of this module
/// holds it.
pub fn is_number_text(text: &str) -> (r: bool)
    ensures
        r == number_text(text@),
{
    if !text.is_ascii() {
        proof {
            if number_text(text@) {
                lemma_number_text_is_ascii(text@);
            }
        }
        return false;
    }
    let bytes = text.as_bytes();
    proof {
        is_ascii_spec_bytes(text);
    }
    let ghost t = text@;
    assert(spells(bytes@, t));
    let from: usize = if bytes.len() > 0 && byte_is_sign(bytes[0]) {
        1
    } else {
        0
    };
    assert(without_sign(t) =~= t.subrange(from as int, t.len() as int));
    special_bytes(bytes, from, Ghost(t)) || decimal_bytes(bytes, from, Ghost(t))
}

} // verus!
