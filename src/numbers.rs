//! Number literals as Rust's `str::parse` reads them: integers of a given
//! radix with an optional sign, and the decimal grammar of floating-point
//! literals.
use vstd::prelude::*;

verus! {

/// The value of the digit `c` in base `radix` (10 or 16), if it is one.
pub open spec fn digit_value(c: char, radix: nat) -> Option<nat> {
    if '0' <= c && c <= '9' {
        Some((c as nat - '0' as nat) as nat)
    } else if radix == 16 && 'a' <= c && c <= 'f' {
        Some((c as nat - 'a' as nat + 10) as nat)
    } else if radix == 16 && 'A' <= c && c <= 'F' {
        Some((c as nat - 'A' as nat + 10) as nat)
    } else {
        None
    }
}

/// The value of a string of digits in base `radix`; `None` if some
/// character is not a digit. The empty string has the value 0.
pub open spec fn digits_value(s: Seq<char>, radix: nat) -> Option<nat>
    decreases s.len(),
{
    if s.len() == 0 {
        Some(0)
    } else {
        match (digits_value(s.drop_last(), radix), digit_value(s.last(), radix)) {
            (Some(v), Some(d)) => Some(v * radix + d),
            _ => None,
        }
    }
}

/// The integer that `s` denotes: an optional `+` (or `-` where `signed`),
/// then one or more digits of base `radix`.
pub open spec fn integer_text_value(s: Seq<char>, radix: nat, signed: bool) -> Option<int> {
    if s.len() == 0 {
        None
    } else if s[0] == '+' || (signed && s[0] == '-') {
        if s.len() == 1 {
            None
        } else {
            match digits_value(s.skip(1), radix) {
                Some(v) => Some(if s[0] == '-' { -v } else { v as int }),
                None => None,
            }
        }
    } else {
        match digits_value(s, radix) {
            Some(v) => Some(v as int),
            None => None,
        }
    }
}

/// The integer that `s` denotes if it lies in `lo..=hi`, as parsing into an
/// integer type with that range accepts it.
pub open spec fn integer_in_range(s: Seq<char>, radix: nat, signed: bool, lo: int, hi: int) -> Option<int> {
    match integer_text_value(s, radix, signed) {
        Some(v) => if lo <= v && v <= hi { Some(v) } else { None },
        None => None,
    }
}

/// The `i32` that `s` denotes in decimal.
pub open spec fn i32_text(s: Seq<char>) -> Option<int> {
    integer_in_range(s, 10, true, i32::MIN as int, i32::MAX as int)
}

/// The `i64` that `s` denotes in decimal.
pub open spec fn i64_text(s: Seq<char>) -> Option<int> {
    integer_in_range(s, 10, true, i64::MIN as int, i64::MAX as int)
}

/// The `u32` that `s` denotes in decimal.
pub open spec fn u32_text(s: Seq<char>) -> Option<int> {
    integer_in_range(s, 10, false, 0, u32::MAX as int)
}

/// The `u64` that `s` denotes in decimal.
pub open spec fn u64_text(s: Seq<char>) -> Option<int> {
    integer_in_range(s, 10, false, 0, u64::MAX as int)
}

/// The `u64` that `s` denotes in hexadecimal.
pub open spec fn hex_u64_text(s: Seq<char>) -> Option<int> {
    integer_in_range(s, 16, false, 0, u64::MAX as int)
}

proof fn lemma_digits_value_grows(s: Seq<char>, radix: nat, k: int)
    requires
        radix >= 1,
        0 <= k <= s.len(),
        digits_value(s, radix) is Some,
    ensures
        digits_value(s.take(k), radix) is Some,
        digits_value(s.take(k), radix)->0 <= digits_value(s, radix)->0,
    decreases s.len(),
{
    if k < s.len() {
        let p = s.drop_last();
        assert(p.take(k) == s.take(k));
        lemma_digits_value_grows(p, radix, k);
        let v = digits_value(p, radix)->0;
        assert(v <= v * radix) by (nonlinear_arith)
            requires
                radix >= 1,
        ;
    } else {
        assert(s.take(k) == s);
    }
}

const MAGNITUDE_CAP: u128 = 0x1_0000_0000_0000_0000;

/// The value of the digits `s[start..]` in base `radix`, or `None` if one
/// of them is not a digit; a value above 2^64 is reported as 2^64 + 1.
fn digits_magnitude(s: &[char], start: usize, radix: u32) -> (r: Option<u128>)
    requires
        radix == 10 || radix == 16,
        start <= s@.len(),
    ensures
        match digits_value(s@.skip(start as int), radix as nat) {
            Some(v) => r is Some && (if v <= MAGNITUDE_CAP { r->0 == v } else { r->0 == MAGNITUDE_CAP + 1 }),
            None => r is None,
        },
{
    let mut mag: u128 = 0;
    let mut i: usize = start;
    while i < s.len()
        invariant
            radix == 10 || radix == 16,
            start <= i <= s@.len(),
            digits_value(s@.subrange(start as int, i as int), radix as nat) is Some,
            ({
                let v = digits_value(s@.subrange(start as int, i as int), radix as nat)->0;
                if v <= MAGNITUDE_CAP { mag == v } else { mag == MAGNITUDE_CAP + 1 }
            }),
        decreases s@.len() - i,
    {
        let c = s[i];
        let d: u32;
        if '0' <= c && c <= '9' {
            d = (c as u32) - ('0' as u32);
        } else if radix == 16 && 'a' <= c && c <= 'f' {
            d = (c as u32) - ('a' as u32) + 10;
        } else if radix == 16 && 'A' <= c && c <= 'F' {
            d = (c as u32) - ('A' as u32) + 10;
        } else {
            proof {
                let full = s@.skip(start as int);
                assert(digit_value(c, radix as nat) is None);
                assert(full.take(i - start + 1).last() == c);
                assert(full.take(i - start + 1).drop_last() == s@.subrange(start as int, i as int));
                if digits_value(full, radix as nat) is Some {
                    lemma_digits_value_grows(full, radix as nat, i - start + 1);
                }
            }
            return None;
        }
        proof {
            let pre = s@.subrange(start as int, i as int);
            let next = s@.subrange(start as int, i + 1);
            assert(next.drop_last() == pre);
            assert(next.last() == c);
            assert(digit_value(c, radix as nat) == Some(d as nat));
            let v = digits_value(pre, radix as nat)->0;
            assert(v * radix as nat + d >= v) by (nonlinear_arith)
                requires
                    radix >= 1,
            ;
            if v <= MAGNITUDE_CAP {
                assert(v * radix as nat <= MAGNITUDE_CAP * 16) by (nonlinear_arith)
                    requires
                        v <= MAGNITUDE_CAP,
                        radix <= 16,
                ;
            }
        }
        if mag <= MAGNITUDE_CAP {
            mag = mag * (radix as u128) + (d as u128);
            if mag > MAGNITUDE_CAP {
                mag = MAGNITUDE_CAP + 1;
            }
        }
        i += 1;
    }
    proof {
        assert(s@.subrange(start as int, s@.len() as int) == s@.skip(start as int));
    }
    Some(mag)
}

/// Reads `s` as an integer of base `radix` with an optional sign (a `-`
/// only where `signed`), accepted only within `lo..=hi`.
fn parse_integer(s: &[char], radix: u32, signed: bool, lo: i128, hi: i128) -> (r: Option<i128>)
    requires
        radix == 10 || radix == 16,
        -(MAGNITUDE_CAP as int) <= lo,
        hi <= MAGNITUDE_CAP as int,
    ensures
        match integer_in_range(s@, radix as nat, signed, lo as int, hi as int) {
            Some(v) => r == Some(v as i128),
            None => r is None,
        },
{
    if s.len() == 0 {
        return None;
    }
    let negative = signed && s[0] == '-';
    let start: usize = if s[0] == '+' || negative { 1 } else { 0 };
    if start == 1 && s.len() == 1 {
        return None;
    }
    proof {
        if start == 0 {
            assert(s@.skip(0) == s@);
        }
    }
    match digits_magnitude(s, start, radix) {
        None => None,
        Some(mag) => {
            if mag > MAGNITUDE_CAP {
                return None;
            }
            let v: i128 = if negative { -(mag as i128) } else { mag as i128 };
            if lo <= v && v <= hi {
                Some(v)
            } else {
                None
            }
        },
    }
}

/// Reads `s` as `str::parse::<i32>` does.
pub fn parse_i32(s: &[char]) -> (r: Option<i32>)
    ensures
        match i32_text(s@) {
            Some(v) => r == Some(v as i32),
            None => r is None,
        },
{
    match parse_integer(s, 10, true, i32::MIN as i128, i32::MAX as i128) {
        Some(v) => Some(v as i32),
        None => None,
    }
}

/// Reads `s` as `str::parse::<i64>` does.
pub fn parse_i64(s: &[char]) -> (r: Option<i64>)
    ensures
        match i64_text(s@) {
            Some(v) => r == Some(v as i64),
            None => r is None,
        },
{
    match parse_integer(s, 10, true, i64::MIN as i128, i64::MAX as i128) {
        Some(v) => Some(v as i64),
        None => None,
    }
}

/// Reads `s` as `str::parse::<u32>` does.
pub fn parse_u32(s: &[char]) -> (r: Option<u32>)
    ensures
        match u32_text(s@) {
            Some(v) => r == Some(v as u32),
            None => r is None,
        },
{
    match parse_integer(s, 10, false, 0, u32::MAX as i128) {
        Some(v) => Some(v as u32),
        None => None,
    }
}

/// Reads `s` as `str::parse::<u64>` does.
pub fn parse_u64(s: &[char]) -> (r: Option<u64>)
    ensures
        match u64_text(s@) {
            Some(v) => r == Some(v as u64),
            None => r is None,
        },
{
    match parse_integer(s, 10, false, 0, u64::MAX as i128) {
        Some(v) => Some(v as u64),
        None => None,
    }
}

/// Reads `s` as `u64::from_str_radix(s, 16)` does.
pub fn parse_hex_u64(s: &[char]) -> (r: Option<u64>)
    ensures
        match hex_u64_text(s@) {
            Some(v) => r == Some(v as u64),
            None => r is None,
        },
{
    match parse_integer(s, 16, false, 0, u64::MAX as i128) {
        Some(v) => Some(v as u64),
        None => None,
    }
}

/// An ASCII decimal digit.
pub open spec fn is_digit(c: char) -> bool {
    '0' <= c && c <= '9'
}

/// The number of ASCII digits at the start of `s`.
pub open spec fn leading_digits(s: Seq<char>) -> nat
    decreases s.len(),
{
    if s.len() > 0 && is_digit(s[0]) {
        1 + leading_digits(s.skip(1))
    } else {
        0
    }
}

/// 1 where `s` starts with a sign, else 0.
pub open spec fn sign_len(s: Seq<char>) -> nat {
    if s.len() > 0 && (s[0] == '+' || s[0] == '-') {
        1
    } else {
        0
    }
}

/// An exponent: `e` or `E`, an optional sign, then one or more digits.
pub open spec fn is_exponent(s: Seq<char>) -> bool {
    s.len() > 0 && (s[0] == 'e' || s[0] == 'E') && {
        let t = s.skip(1).skip(sign_len(s.skip(1)) as int);
        t.len() > 0 && leading_digits(t) == t.len()
    }
}

/// Digits with an optional `.` among or around them (at least one digit in
/// all), then an optional exponent.
pub open spec fn is_decimal_number(s: Seq<char>) -> bool {
    let m = leading_digits(s);
    let r = s.skip(m as int);
    if r.len() > 0 && r[0] == '.' {
        let f = r.skip(1);
        let k = leading_digits(f);
        let e = f.skip(k as int);
        m + k > 0 && (e.len() == 0 || is_exponent(e))
    } else {
        m > 0 && (r.len() == 0 || is_exponent(r))
    }
}

/// Whether `c` is the lower-case letter `w` in either case.
pub open spec fn same_letter(c: char, w: char) -> bool {
    c == w || ('A' <= c && c <= 'Z' && c as u32 + 32 == w as u32)
}

/// Whether `s` spells the lower-case word `w`, ignoring the case of letters.
pub open spec fn spells(s: Seq<char>, w: Seq<char>) -> bool {
    s.len() == w.len() && forall|i: int| 0 <= i < s.len() ==> same_letter(#[trigger] s[i], w[i])
}

/// Whether `s` is one of `inf`, `infinity` and `nan`, in any case.
pub open spec fn is_special_float(s: Seq<char>) -> bool {
    spells(s, "inf"@) || spells(s, "infinity"@) || spells(s, "nan"@)
}

/// Whether `str::parse::<f64>` accepts `s`: an optional sign, then a decimal
/// number or one of the special names.
pub open spec fn is_float_text(s: Seq<char>) -> bool {
    let b = s.skip(sign_len(s) as int);
    b.len() > 0 && (is_decimal_number(b) || is_special_float(b))
}

/// The index of the first non-digit at or after `i`.
fn skip_digits(s: &[char], i: usize) -> (r: usize)
    requires
        i <= s@.len(),
    ensures
        r == i + leading_digits(s@.skip(i as int)),
        r <= s@.len(),
    decreases s@.len() - i,
{
    if i < s.len() && '0' <= s[i] && s[i] <= '9' {
        assert(s@.skip(i as int).skip(1) == s@.skip(i + 1));
        skip_digits(s, i + 1)
    } else {
        i
    }
}

fn exponent_at(s: &[char], i: usize) -> (r: bool)
    requires
        i <= s@.len(),
    ensures
        r == is_exponent(s@.skip(i as int)),
{
    if i >= s.len() || !(s[i] == 'e' || s[i] == 'E') {
        return false;
    }
    let mut j = i + 1;
    assert(s@.skip(i as int).skip(1) == s@.skip(j as int));
    if j < s.len() && (s[j] == '+' || s[j] == '-') {
        j = j + 1;
    }
    assert(s@.skip(i as int).skip(1).skip(sign_len(s@.skip(i as int).skip(1)) as int) == s@.skip(
        j as int,
    ));
    let end = skip_digits(s, j);
    j < s.len() && end == s.len()
}

fn matches_lower(s: &[char], i: usize, word: &str) -> (r: bool)
    requires
        i <= s@.len(),
    ensures
        r == spells(s@.skip(i as int), word@),
{
    let n = word.unicode_len();
    if s.len() - i != n {
        return false;
    }
    let mut k: usize = 0;
    while k < n
        invariant
            k <= n,
            n == word@.len(),
            i + n == s.len(),
            forall|j: int| 0 <= j < k ==> same_letter(#[trigger] s@.skip(i as int)[j], word@[j]),
        decreases n - k,
    {
        let c = s[i + k];
        let w = word.get_char(k);
        if !(c == w || ('A' <= c && c <= 'Z' && c as u32 + 32 == w as u32)) {
            assert(!same_letter(s@.skip(i as int)[k as int], word@[k as int]));
            return false;
        }
        k += 1;
    }
    true
}

/// Whether `str::parse::<f64>` would accept `s`; the literal itself is kept
/// as text where a value needs it.
pub fn is_float_literal(s: &[char]) -> (r: bool)
    ensures
        r == is_float_text(s@),
{
    let start: usize = if s.len() > 0 && (s[0] == '+' || s[0] == '-') { 1 } else { 0 };
    proof {
        assert(s@.skip(0) == s@);
    }
    if start >= s.len() {
        return false;
    }
    let m = skip_digits(s, start);
    let number = if m < s.len() && s[m] == '.' {
        proof {
            assert(s@.skip(start as int).skip(m - start) == s@.skip(m as int));
            assert(s@.skip(m as int).skip(1) == s@.skip(m + 1));
        }
        let k = skip_digits(s, m + 1);
        proof {
            assert(s@.skip(m + 1).skip(k - m - 1) == s@.skip(k as int));
        }
        (m > start || k > m + 1) && (k == s.len() || exponent_at(s, k))
    } else {
        proof {
            assert(s@.skip(start as int).skip(m - start) == s@.skip(m as int));
        }
        m > start && (m == s.len() || exponent_at(s, m))
    };
    number || matches_lower(s, start, "inf") || matches_lower(s, start, "infinity")
        || matches_lower(s, start, "nan")
}

} // verus!
