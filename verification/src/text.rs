//! Small string utilities: building strings a character at a time and
//! comparing strings by their character sequences.

use vstd::prelude::*;

verus! {

/// Relies on `String::push`: appends the given character to the end of the
/// string.
#[verifier::external_body]
pub fn push_char(s: &mut String, c: char)
    ensures
        final (s)@ == old(s)@.push(c),
{
    s.push(c)
}

/// ASCII whitespace, the characters that trimming removes. In UTF-8 text no
/// byte of a multi-byte character falls in this set, so byte-level trimming
/// never splits a character.
pub open spec fn is_ws_byte(b: u8) -> bool {
    b == 32 || b == 9 || b == 10 || b == 11 || b == 12 || b == 13
}

/// How many whitespace bytes the text starts with.
pub open spec fn leading_ws(s: Seq<u8>) -> int
    decreases s.len(),
{
    if s.len() == 0 || !is_ws_byte(s[0]) {
        0
    } else {
        1 + leading_ws(s.drop_first())
    }
}

/// How many whitespace bytes the text ends with.
pub open spec fn trailing_ws(s: Seq<u8>) -> int
    decreases s.len(),
{
    if s.len() == 0 || !is_ws_byte(s[s.len() - 1]) {
        0
    } else {
        1 + trailing_ws(s.drop_last())
    }
}

/// Text that trims away to nothing: every byte is whitespace.
pub open spec fn is_blank(s: Seq<u8>) -> bool {
    forall|i: int| 0 <= i < s.len() ==> is_ws_byte(#[trigger] s[i])
}

pub proof fn lemma_leading_ws(s: Seq<u8>)
    ensures
        0 <= leading_ws(s) <= s.len(),
        forall|i: int| 0 <= i < leading_ws(s) ==> is_ws_byte(#[trigger] s[i]),
        leading_ws(s) < s.len() ==> !is_ws_byte(s[leading_ws(s)]),
    decreases s.len(),
{
    if s.len() == 0 || !is_ws_byte(s[0]) {
    } else {
        lemma_leading_ws(s.drop_first());
        assert forall|i: int| 0 <= i < leading_ws(s) implies is_ws_byte(#[trigger] s[i]) by {
            if i > 0 {
                assert(s.drop_first()[i - 1] == s[i]);
            }
        }
    }
}

pub proof fn lemma_trailing_ws(s: Seq<u8>)
    ensures
        0 <= trailing_ws(s) <= s.len(),
        forall|i: int| s.len() - trailing_ws(s) <= i < s.len() ==> is_ws_byte(#[trigger] s[i]),
        trailing_ws(s) < s.len() ==> !is_ws_byte(s[s.len() - trailing_ws(s) - 1]),
    decreases s.len(),
{
    if s.len() == 0 || !is_ws_byte(s[s.len() - 1]) {
    } else {
        lemma_trailing_ws(s.drop_last());
        assert forall|i: int| s.len() - trailing_ws(s) <= i < s.len() implies is_ws_byte(
            #[trigger] s[i],
        ) by {
            if i < s.len() - 1 {
                assert(s.drop_last()[i] == s[i]);
            }
        }
    }
}

/// A blank text is exactly one whose leading whitespace covers it whole.
pub proof fn lemma_blank_leading_ws(s: Seq<u8>)
    ensures
        is_blank(s) <==> leading_ws(s) == s.len(),
    decreases s.len(),
{
    lemma_leading_ws(s);
    if s.len() > 0 && is_ws_byte(s[0]) {
        lemma_blank_leading_ws(s.drop_first());
        assert(forall|i: int|
            0 <= i < s.drop_first().len() ==> s.drop_first()[i] == #[trigger] s[i + 1]);
        if is_blank(s) {
            assert forall|i: int| 0 <= i < s.drop_first().len() implies is_ws_byte(
                #[trigger] s.drop_first()[i],
            ) by {
                assert(s.drop_first()[i] == s[i + 1]);
            }
        }
    }
}

/// Whether every byte of the string is ASCII whitespace (so the string
/// trims away to nothing).
pub fn bytes_blank(b: &[u8]) -> (r: bool)
    ensures
        r == is_blank(b@),
{
    let n: usize = b.len();
    let mut i: usize = 0;
    while i < n
        invariant
            n == b@.len(),
            i <= n,
            forall|j: int| 0 <= j < i ==> is_ws_byte(#[trigger] b@[j]),
        decreases n - i,
    {
        let c: u8 = b[i];
        if !(c == 32 || c == 9 || c == 10 || c == 11 || c == 12 || c == 13) {
            return false;
        }
        i = i + 1;
    }
    true
}

/// Whether one byte is ASCII whitespace.
pub fn is_ws_u8(c: u8) -> (r: bool)
    ensures
        r == is_ws_byte(c),
{
    c == 32 || c == 9 || c == 10 || c == 11 || c == 12 || c == 13
}

/// The bounds of the trimmed text: index of the first byte kept and the
/// number of bytes kept.
pub fn trim_bounds(b: &[u8]) -> (r: (usize, usize))
    requires
        !is_blank(b@),
    ensures
        r.0 == leading_ws(b@),
        r.1 == b@.len() - trailing_ws(b@) - leading_ws(b@),
        r.1 >= 1,
        r.0 + r.1 <= b@.len(),
{
    proof {
        lemma_leading_ws(b@);
        lemma_trailing_ws(b@);
        lemma_blank_leading_ws(b@);
    }
    let n: usize = b.len();
    let mut start: usize = 0;
    while start < n && is_ws_u8(b[start])
        invariant
            n == b@.len(),
            start <= leading_ws(b@) < n,
            !is_ws_byte(b@[leading_ws(b@)]),
            forall|j: int| 0 <= j < leading_ws(b@) ==> is_ws_byte(#[trigger] b@[j]),
        decreases n - start,
    {
        start = start + 1;
    }
    assert(start == leading_ws(b@));
    let mut end: usize = n;
    while end > start && is_ws_u8(b[end - 1])
        invariant
            n == b@.len(),
            start == leading_ws(b@),
            !is_ws_byte(b@[start as int]),
            start < n - trailing_ws(b@) <= end <= n,
            trailing_ws(b@) < n ==> !is_ws_byte(b@[n - trailing_ws(b@) - 1]),
            forall|j: int| n - trailing_ws(b@) <= j < n ==> is_ws_byte(#[trigger] b@[j]),
        decreases end,
    {
        end = end - 1;
    }
    assert(end == n - trailing_ws(b@));
    (start, end - start)
}

pub open spec fn is_digit(c: char) -> bool {
    48 <= c as u32 <= 57
}

pub open spec fn digit_val(c: char) -> int {
    c as u32 - 48
}

pub open spec fn digit_char(d: int) -> char {
    ((48 + d) as u8) as char
}

/// The value of a string of decimal digits.
pub open spec fn dec_val(s: Seq<char>) -> int
    decreases s.len(),
{
    if s.len() == 0 {
        0
    } else {
        dec_val(s.drop_last()) * 10 + digit_val(s.last())
    }
}

pub open spec fn all_digits(s: Seq<char>) -> bool {
    forall|i: int| 0 <= i < s.len() ==> is_digit(#[trigger] s[i])
}

/// What parsing a decimal integer yields: an optional sign followed by at
/// least one digit, with the value in `i32` range; anything else is
/// nothing.
pub open spec fn parse_i32_seq(s: Seq<char>) -> Option<i32> {
    let neg = s.len() > 0 && s[0] == '-';
    let digits = if s.len() > 0 && (s[0] == '-' || s[0] == '+') {
        s.drop_first()
    } else {
        s
    };
    if digits.len() == 0 || !all_digits(digits) {
        None
    } else {
        let v = if neg {
            -dec_val(digits)
        } else {
            dec_val(digits)
        };
        if -0x8000_0000 <= v <= 0x7fff_ffff {
            Some(v as i32)
        } else {
            None
        }
    }
}

/// A digit string's value is nonnegative.
pub proof fn lemma_dec_val_nonneg(s: Seq<char>)
    requires
        all_digits(s),
    ensures
        dec_val(s) >= 0,
    decreases s.len(),
{
    if s.len() > 0 {
        assert(forall|i: int|
            0 <= i < s.drop_last().len() ==> is_digit(#[trigger] s.drop_last()[i]));
        lemma_dec_val_nonneg(s.drop_last());
        assert(dec_val(s.drop_last()) * 10 >= 0) by (nonlinear_arith)
            requires
                dec_val(s.drop_last()) >= 0,
        ;
    }
}

/// Extending a digit string never shrinks its value.
pub proof fn lemma_dec_val_prefix(s: Seq<char>, k: int)
    requires
        all_digits(s),
        0 <= k <= s.len(),
    ensures
        dec_val(s) >= dec_val(s.take(k)),
    decreases s.len() - k,
{
    if k < s.len() {
        lemma_dec_val_prefix(s, k + 1);
        assert(s.take(k + 1).drop_last() =~= s.take(k));
        assert(forall|i: int| 0 <= i < s.take(k).len() ==> is_digit(#[trigger] s.take(k)[i]));
        lemma_dec_val_nonneg(s.take(k));
        assert(dec_val(s.take(k + 1)) == dec_val(s.take(k)) * 10 + digit_val(s[k]));
        assert(dec_val(s.take(k)) * 10 >= dec_val(s.take(k))) by (nonlinear_arith)
            requires
                dec_val(s.take(k)) >= 0,
        ;
    } else {
        assert(s.take(k) =~= s);
    }
}

/// Parse a decimal integer: an optional `+` or `-` sign followed by one or
/// more digits, rejected when the value leaves `i32` range.
pub fn parse_i32(s: &str) -> (r: Option<i32>)
    ensures
        r == parse_i32_seq(s@),
{
    let n: usize = s.unicode_len();
    if n == 0 {
        return None;
    }
    let c0: char = s.get_char(0);
    let has_sign: bool = c0 == '-' || c0 == '+';
    let neg: bool = c0 == '-';
    let start: usize = if has_sign {
        1
    } else {
        0
    };
    let ghost digits = if has_sign {
        s@.drop_first()
    } else {
        s@
    };
    proof {
        assert(digits.len() == n - start);
        assert(forall|j: int| 0 <= j < digits.len() ==> digits[j] == s@[j + start]);
    }
    if n - start == 0 {
        return None;
    }
    let mut acc: u64 = 0;
    let mut i: usize = start;
    while i < n
        invariant
            n == s@.len(),
            start <= i <= n,
            start <= 1,
            n > start,
            n > 0,
            (start == 1) <==> (s@[0] == '-' || s@[0] == '+'),
            neg == (s@[0] == '-'),
            digits == (if start == 1 {
                s@.drop_first()
            } else {
                s@
            }),
            digits.len() == n - start,
            forall|j: int| 0 <= j < digits.len() ==> digits[j] == s@[j + start],
            forall|j: int| 0 <= j < i - start ==> is_digit(#[trigger] digits[j]),
            acc == dec_val(digits.take(i - start)),
            acc <= 0x8000_0000,
        decreases n - i,
    {
        let c: char = s.get_char(i);
        let v: u32 = c as u32;
        if v < 48 || v > 57 {
            assert(!is_digit(digits[i - start]));
            return None;
        }
        proof {
            assert(digits.take(i - start + 1).drop_last() =~= digits.take(i - start));
            assert(digits.take(i - start + 1).last() == digits[i - start]);
        }
        acc = acc * 10 + ((v - 48) as u64);
        if acc > 0x8000_0000 {
            proof {
                assert(forall|j: int|
                    0 <= j < digits.len() ==> is_digit(#[trigger] digits[j]) || j > i - start);
                if all_digits(digits) {
                    lemma_dec_val_prefix(digits, i as int - start + 1);
                    lemma_dec_val_nonneg(digits);
                    assert(dec_val(digits) >= dec_val(digits.take(i - start + 1)));
                    assert(dec_val(digits) > 0x7fff_ffff);
                    assert(-dec_val(digits) < -0x8000_0000);
                }
            }
            return None;
        }
        i = i + 1;
    }
    proof {
        assert(digits.take(n - start) =~= digits);
        assert(all_digits(digits));
    }
    if neg {
        let val: i64 = -(acc as i64);
        assert(val == -dec_val(digits));
        Some(val as i32)
    } else {
        if acc > 0x7fff_ffff {
            proof {
                assert(dec_val(digits) == 0x8000_0000);
            }
            return None;
        }
        Some(acc as i32)
    }
}

/// Lexicographic order on character sequences, comparing by code point;
/// a proper prefix sorts before its extensions. On `YYYY-MM-DD` date
/// strings this is the chronological order.
pub open spec fn lex_le(a: Seq<char>, b: Seq<char>) -> bool
    decreases a.len(),
{
    if a.len() == 0 {
        true
    } else if b.len() == 0 {
        false
    } else if (a[0] as u32) < (b[0] as u32) {
        true
    } else if (a[0] as u32) > (b[0] as u32) {
        false
    } else {
        lex_le(a.drop_first(), b.drop_first())
    }
}

/// Equal code points name the same character.
pub proof fn lemma_char_eq_from_u32(c1: char, c2: char)
    requires
        c1 as u32 == c2 as u32,
    ensures
        c1 == c2,
{
}

/// Lexicographic order is total.
pub proof fn lemma_lex_le_total(a: Seq<char>, b: Seq<char>)
    ensures
        lex_le(a, b) || lex_le(b, a),
    decreases a.len(),
{
    if a.len() > 0 && b.len() > 0 && (a[0] as u32) == (b[0] as u32) {
        lemma_lex_le_total(a.drop_first(), b.drop_first());
    }
}

/// Lexicographic order is transitive.
pub proof fn lemma_lex_le_trans(a: Seq<char>, b: Seq<char>, c: Seq<char>)
    requires
        lex_le(a, b),
        lex_le(b, c),
    ensures
        lex_le(a, c),
    decreases a.len(),
{
    if a.len() > 0 && b.len() > 0 && c.len() > 0 && (a[0] as u32) == (b[0] as u32) && (b[0] as u32)
        == (c[0] as u32) {
        lemma_lex_le_trans(a.drop_first(), b.drop_first(), c.drop_first());
    }
}

/// Lexicographic order is antisymmetric: mutual order means equality.
pub proof fn lemma_lex_le_antisym(a: Seq<char>, b: Seq<char>)
    requires
        lex_le(a, b),
        lex_le(b, a),
    ensures
        a == b,
    decreases a.len(),
{
    if a.len() == 0 {
        assert(b.len() == 0);
        assert(a =~= b);
    } else {
        assert(b.len() > 0);
        assert((a[0] as u32) == (b[0] as u32));
        lemma_char_eq_from_u32(a[0], b[0]);
        lemma_lex_le_antisym(a.drop_first(), b.drop_first());
        assert forall|i: int| 0 <= i < a.len() implies a[i] == b[i] by {
            if i > 0 {
                assert(a.drop_first()[i - 1] == a[i]);
                assert(b.drop_first()[i - 1] == b[i]);
            }
        }
        assert(a =~= b);
    }
}

/// Dropping an equal prefix does not change how two texts compare.
pub proof fn lemma_lex_le_skip(a: Seq<char>, b: Seq<char>, i: int)
    requires
        0 <= i <= a.len(),
        i <= b.len(),
        forall|j: int| 0 <= j < i ==> a[j] == b[j],
    ensures
        lex_le(a, b) == lex_le(a.skip(i), b.skip(i)),
    decreases i,
{
    if i == 0 {
        assert(a.skip(0) =~= a);
        assert(b.skip(0) =~= b);
    } else {
        assert(a[0] == b[0]);
        assert(a.len() > 0 && b.len() > 0);
        assert(lex_le(a, b) == lex_le(a.drop_first(), b.drop_first()));
        assert(a.drop_first().skip(i - 1) =~= a.skip(i));
        assert(b.drop_first().skip(i - 1) =~= b.skip(i));
        assert(forall|j: int|
            0 <= j < i - 1 ==> a.drop_first()[j] == #[trigger] b.drop_first()[j]);
        lemma_lex_le_skip(a.drop_first(), b.drop_first(), i - 1);
    }
}

/// Whether `a` sorts at or before `b` in lexicographic code-point order.
pub fn str_lex_le(a: &str, b: &str) -> (r: bool)
    ensures
        r == lex_le(a@, b@),
{
    let a_len: usize = a.unicode_len();
    let b_len: usize = b.unicode_len();
    let mut i: usize = 0;
    while i < a_len && i < b_len
        invariant
            a_len == a@.len(),
            b_len == b@.len(),
            i <= a_len,
            i <= b_len,
            forall|j: int| 0 <= j < i ==> a@[j] == b@[j],
        decreases a_len - i,
    {
        let ca: u32 = a.get_char(i) as u32;
        let cb: u32 = b.get_char(i) as u32;
        if ca < cb {
            proof {
                lemma_lex_le_skip(a@, b@, i as int);
                assert(a@.skip(i as int)[0] == a@[i as int]);
                assert(b@.skip(i as int)[0] == b@[i as int]);
            }
            return true;
        }
        if ca > cb {
            proof {
                lemma_lex_le_skip(a@, b@, i as int);
                assert(a@.skip(i as int)[0] == a@[i as int]);
                assert(b@.skip(i as int)[0] == b@[i as int]);
            }
            return false;
        }
        proof {
            assert(a@[i as int] as u32 == b@[i as int] as u32);
            assert(a@[i as int] == b@[i as int]) by {
                assert(a@[i as int] as u32 == b@[i as int] as u32);
            }
        }
        i = i + 1;
    }
    proof {
        lemma_lex_le_skip(a@, b@, i as int);
    }
    if i == a_len {
        proof {
            assert(a@.skip(i as int).len() == 0);
        }
        true
    } else {
        proof {
            assert(b@.skip(i as int).len() == 0);
            assert(a@.skip(i as int).len() > 0);
        }
        false
    }
}

/// Character-by-character string equality.
pub fn str_eq(a: &str, b: &str) -> (r: bool)
    ensures
        r == (a@ == b@),
{
    let a_len: usize = a.unicode_len();
    let b_len: usize = b.unicode_len();
    if a_len != b_len {
        assert(a@ != b@);
        return false;
    }
    let mut i: usize = 0;
    while i < a_len
        invariant
            a_len == a@.len(),
            b_len == b@.len(),
            a_len == b_len,
            i <= a_len,
            forall|j: int| 0 <= j < i ==> a@[j] == b@[j],
        decreases a_len - i,
    {
        if a.get_char(i) != b.get_char(i) {
            assert(a@ != b@);
            return false;
        }
        i = i + 1;
    }
    assert(a@ =~= b@);
    true
}

} // verus!
