//! Small verified text helpers: decimal parsing for the numeric request
//! fields, decimal rendering for error messages, and substring search.

use vstd::prelude::*;

verus! {

/// The value of a decimal digit character, or -1 for anything else.
pub open spec fn spec_digit_val(c: char) -> int {
    if c == '0' {
        0
    } else if c == '1' {
        1
    } else if c == '2' {
        2
    } else if c == '3' {
        3
    } else if c == '4' {
        4
    } else if c == '5' {
        5
    } else if c == '6' {
        6
    } else if c == '7' {
        7
    } else if c == '8' {
        8
    } else if c == '9' {
        9
    } else {
        -1
    }
}

pub open spec fn spec_is_digit(c: char) -> bool {
    spec_digit_val(c) >= 0
}

/// The digit character for a value below ten.
pub open spec fn spec_digit_char(v: int) -> char {
    if v == 0 {
        '0'
    } else if v == 1 {
        '1'
    } else if v == 2 {
        '2'
    } else if v == 3 {
        '3'
    } else if v == 4 {
        '4'
    } else if v == 5 {
        '5'
    } else if v == 6 {
        '6'
    } else if v == 7 {
        '7'
    } else if v == 8 {
        '8'
    } else {
        '9'
    }
}

/// Whether every character is a decimal digit, and there is at least one.
pub open spec fn spec_all_digits(s: Seq<char>) -> bool {
    s.len() > 0 && forall|i: int| 0 <= i < s.len() ==> spec_is_digit(s[i])
}

/// The value of a digit string, most significant digit first.
pub open spec fn spec_digits_value(s: Seq<char>) -> int
    decreases s.len(),
{
    if s.len() == 0 {
        0
    } else {
        spec_digits_value(s.drop_last()) * 10 + spec_digit_val(s.last())
    }
}

/// The digits of a decimal string, once an optional leading `+` is gone.
pub open spec fn spec_uint_body(s: Seq<char>) -> Seq<char> {
    if s.len() > 0 && s[0] == '+' {
        s.drop_first()
    } else {
        s
    }
}

/// What `str::parse` to an unsigned integer accepts: an optional leading
/// `+`, then at least one decimal digit. The range check against the target
/// type comes on top of this.
pub open spec fn spec_parse_uint(s: Seq<char>) -> Option<int> {
    if spec_all_digits(spec_uint_body(s)) {
        Some(spec_digits_value(spec_uint_body(s)))
    } else {
        None
    }
}

/// A parsed unsigned value is never negative.
pub proof fn lemma_parse_uint_nonneg(s: Seq<char>)
    ensures
        spec_parse_uint(s) matches Some(v) ==> v >= 0,
{
    lemma_digits_value_nonneg(spec_uint_body(s));
}

/// Appending digits never shrinks a digit string's value.
proof fn lemma_digits_value_monotone(s: Seq<char>, i: int)
    requires
        0 <= i <= s.len(),
        spec_all_digits(s) || s.len() == 0,
    ensures
        spec_digits_value(s.take(i)) <= spec_digits_value(s),
        spec_digits_value(s) >= 0,
    decreases s.len() - i,
{
    if i == s.len() {
        assert(s.take(i) =~= s);
        lemma_digits_value_nonneg(s);
    } else {
        lemma_digits_value_monotone(s, i + 1);
        assert(s.take(i + 1).drop_last() =~= s.take(i));
        lemma_digits_value_nonneg(s.take(i));
        assert(spec_digits_value(s.take(i + 1)) == spec_digits_value(s.take(i)) * 10
            + spec_digit_val(s.take(i + 1).last()));
    }
}

/// A digit string's value is never negative.
proof fn lemma_digits_value_nonneg(s: Seq<char>)
    ensures
        (forall|i: int| 0 <= i < s.len() ==> spec_is_digit(s[i])) ==> spec_digits_value(s) >= 0,
    decreases s.len(),
{
    if s.len() > 0 {
        lemma_digits_value_nonneg(s.drop_last());
    }
}

/// Parse a decimal string the way `str::parse::<u64>` would, up to the
/// given cap: `Some` exactly when the text is well formed and its value is
/// at most `cap`.
fn parse_uint_capped(s: &str, cap: u64) -> (r: Option<u64>)
    requires
        cap <= 0x1000_0000_0000_0000,
    ensures
        match spec_parse_uint(s@) {
            Some(v) => if v <= cap {
                r == Some(v as u64)
            } else {
                r is None
            },
            None => r is None,
        },
{
    let len = s.unicode_len();
    let mut start: usize = 0;
    if len > 0 && s.get_char(0) == '+' {
        start = 1;
    }
    if start >= len {
        return None;
    }
    let ghost body = spec_uint_body(s@);
    proof {
        assert(body =~= s@.subrange(start as int, len as int));
    }
    let mut value: u64 = 0;
    let mut i: usize = start;
    while i < len
        invariant
            start <= i <= len,
            len == s@.len(),
            start == 0 || start == 1,
            body == spec_uint_body(s@),
            body =~= s@.subrange(start as int, len as int),
            cap <= 0x1000_0000_0000_0000,
            spec_all_digits(body.take(i - start)) || i == start,
            value == spec_digits_value(body.take(i - start)),
            value <= cap,
        decreases len - i,
    {
        let c = s.get_char(i);
        let d: u64 = if c == '0' {
            0
        } else if c == '1' {
            1
        } else if c == '2' {
            2
        } else if c == '3' {
            3
        } else if c == '4' {
            4
        } else if c == '5' {
            5
        } else if c == '6' {
            6
        } else if c == '7' {
            7
        } else if c == '8' {
            8
        } else if c == '9' {
            9
        } else {
            proof {
                assert(body[i - start] == c);
                assert(!spec_all_digits(body));
            }
            return None;
        };
        proof {
            assert(body[i - start] == c);
            assert(spec_digit_val(c) == d);
            assert(body.take(i - start + 1).drop_last() =~= body.take(i - start));
            assert(body.take(i - start + 1).last() == body[i - start]);
        }
        let next = value * 10 + d;
        if next > cap {
            proof {
                let ghost taken = (i - start + 1) as int;
                assert(spec_digits_value(body.take(taken)) == next);
                if spec_all_digits(body) {
                    lemma_digits_value_monotone(body, taken);
                    assert(spec_digits_value(body) >= next);
                }
            }
            return None;
        }
        value = next;
        i = i + 1;
    }
    proof {
        assert(body.take(len - start) =~= body);
    }
    Some(value)
}

/// `str::parse::<u8>`, verified: `Some` exactly on an optional `+`, digits,
/// and a value that fits.
pub fn parse_u8_decimal(s: &str) -> (r: Option<u8>)
    ensures
        match spec_parse_uint(s@) {
            Some(v) => if v <= u8::MAX {
                r == Some(v as u8)
            } else {
                r is None
            },
            None => r is None,
        },
{
    proof {
        lemma_parse_uint_nonneg(s@);
    }
    match parse_uint_capped(s, 255) {
        Some(v) => Some(v as u8),
        None => None,
    }
}

/// `str::parse::<u32>`, verified the same way.
pub fn parse_u32_decimal(s: &str) -> (r: Option<u32>)
    ensures
        match spec_parse_uint(s@) {
            Some(v) => if v <= u32::MAX {
                r == Some(v as u32)
            } else {
                r is None
            },
            None => r is None,
        },
{
    proof {
        lemma_parse_uint_nonneg(s@);
    }
    match parse_uint_capped(s, 0xffff_ffff) {
        Some(v) => Some(v as u32),
        None => None,
    }
}

/// A numeric request field: its parsed value, or the documented default
/// when the text does not parse.
pub fn parse_u32_or(s: &str, default: u32) -> (r: u32)
    ensures
        match spec_parse_uint(s@) {
            Some(v) => if v <= u32::MAX {
                r == v
            } else {
                r == default
            },
            None => r == default,
        },
{
    proof {
        lemma_parse_uint_nonneg(s@);
    }
    match parse_u32_decimal(s) {
        Some(v) => v,
        None => default,
    }
}

/// The bit-depth request field: its parsed value, or the default.
pub fn parse_u8_or(s: &str, default: u8) -> (r: u8)
    ensures
        match spec_parse_uint(s@) {
            Some(v) => if v <= u8::MAX {
                r == v
            } else {
                r == default
            },
            None => r == default,
        },
{
    proof {
        lemma_parse_uint_nonneg(s@);
    }
    match parse_u8_decimal(s) {
        Some(v) => v,
        None => default,
    }
}

/// The decimal rendering of a byte value: one to three digits, no sign, no
/// leading zeros.
pub open spec fn spec_u8_decimal(d: u8) -> Seq<char> {
    if d < 10 {
        seq![spec_digit_char(d as int)]
    } else if d < 100 {
        seq![spec_digit_char(d as int / 10), spec_digit_char(d as int % 10)]
    } else {
        seq![
            spec_digit_char(d as int / 100),
            spec_digit_char((d as int / 10) % 10),
            spec_digit_char(d as int % 10),
        ]
    }
}

/// The one-character string for a digit value.
fn digit_str(d: u8) -> (r: &'static str)
    requires
        d < 10,
    ensures
        r@ =~= seq![spec_digit_char(d as int)],
{
    proof {
        reveal_strlit("0");
        reveal_strlit("1");
        reveal_strlit("2");
        reveal_strlit("3");
        reveal_strlit("4");
        reveal_strlit("5");
        reveal_strlit("6");
        reveal_strlit("7");
        reveal_strlit("8");
        reveal_strlit("9");
    }
    if d == 0 {
        "0"
    } else if d == 1 {
        "1"
    } else if d == 2 {
        "2"
    } else if d == 3 {
        "3"
    } else if d == 4 {
        "4"
    } else if d == 5 {
        "5"
    } else if d == 6 {
        "6"
    } else if d == 7 {
        "7"
    } else if d == 8 {
        "8"
    } else {
        "9"
    }
}

/// Render a byte value in decimal.
pub fn u8_to_string(d: u8) -> (r: String)
    ensures
        r@ == spec_u8_decimal(d),
{
    let mut r = String::new();
    if d >= 100 {
        r.append(digit_str(d / 100));
        r.append(digit_str((d / 10) % 10));
        r.append(digit_str(d % 10));
    } else if d >= 10 {
        r.append(digit_str(d / 10));
        r.append(digit_str(d % 10));
    } else {
        r.append(digit_str(d));
    }
    proof {
        assert(r@ =~= spec_u8_decimal(d));
    }
    r
}

/// Whether the pattern occurs anywhere in the text.
pub open spec fn spec_str_contains(text: Seq<char>, pattern: Seq<char>) -> bool {
    exists|i: int|
        0 <= i <= text.len() - pattern.len() && #[trigger] text.subrange(
            i,
            i + pattern.len() as int,
        ) == pattern
}

/// Substring search by direct comparison at every offset.
pub fn str_contains(text: &str, pattern: &str) -> (found: bool)
    ensures
        found == spec_str_contains(text@, pattern@),
{
    let n = text.unicode_len();
    let m = pattern.unicode_len();
    if m > n {
        proof {
            assert(!spec_str_contains(text@, pattern@));
        }
        return false;
    }
    let mut i: usize = 0;
    while i <= n - m
        invariant
            m <= n,
            n == text@.len(),
            m == pattern@.len(),
            i <= n - m + 1,
            forall|i2: int|
                0 <= i2 < i ==> #[trigger] text@.subrange(i2, i2 + pattern@.len() as int)
                    != pattern@,
        decreases n - m - i + 1,
    {
        let mut j: usize = 0;
        let mut matches_here = true;
        while j < m
            invariant
                m <= n,
                n == text@.len(),
                m == pattern@.len(),
                i <= n - m,
                j <= m,
                matches_here == (forall|j2: int|
                    0 <= j2 < j ==> text@[i + j2] == pattern@[j2]),
            decreases m - j,
        {
            let tc = text.get_char(i + j);
            let pc = pattern.get_char(j);
            if tc != pc {
                matches_here = false;
                proof {
                    assert(text@[i + j] != pattern@[j as int]);
                }
                j = m;
            } else {
                proof {
                    assert(text@[i + j] == pattern@[j as int]);
                }
                j = j + 1;
            }
        }
        if matches_here {
            proof {
                assert(text@.subrange(i as int, i + pattern@.len() as int) =~= pattern@);
            }
            return true;
        }
        proof {
            if text@.subrange(i as int, i + pattern@.len() as int) == pattern@ {
                assert(forall|j2: int|
                    0 <= j2 < m ==> text@[i + j2] == #[trigger] text@.subrange(
                        i as int,
                        i + pattern@.len() as int,
                    )[j2]);
                assert(false);
            }
        }
        i = i + 1;
    }
    proof {
        assert(!spec_str_contains(text@, pattern@));
    }
    false
}

/// Character-for-character string equality.
pub fn str_eq(a: &str, b: &str) -> (r: bool)
    ensures
        r == (a@ == b@),
{
    let sa = String::from_str(a);
    let sb = String::from_str(b);
    sa == sb
}

} // verus!
