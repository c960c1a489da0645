//! Whole numbers as text: decimal and hexadecimal digits, and reading them back.

use crate::text::{char_is_digit, chars_of, is_digit};
use vstd::prelude::*;
use vstd::string::*;

verus! {

/// The digit character for `d`, in lower case from ten on.
pub open spec fn digit_char(d: int) -> char {
    if d < 10 {
        (48 + d) as u8 as char
    } else {
        (87 + d) as u8 as char
    }
}

/// The decimal digits of `n`.
pub open spec fn decimal(n: nat) -> Seq<char>
    decreases n,
{
    if n < 10 {
        seq![digit_char(n as int)]
    } else {
        decimal(n / 10).push(digit_char((n % 10) as int))
    }
}

/// `n` in decimal, with a minus sign where it is negative.
pub open spec fn decimal_int(n: int) -> Seq<char> {
    if n < 0 {
        seq!['-'] + decimal((-n) as nat)
    } else {
        decimal(n as nat)
    }
}

/// The last `width` hexadecimal digits of `n`.
pub open spec fn hex_digits(n: nat, width: nat) -> Seq<char>
    decreases width,
{
    if width == 0 {
        seq![]
    } else {
        hex_digits(n / 16, (width - 1) as nat).push(digit_char((n % 16) as int))
    }
}

/// The number that a row of decimal digits spells.
pub open spec fn digits_value(s: Seq<char>) -> nat
    decreases s.len(),
{
    if s.len() == 0 {
        0
    } else {
        digits_value(s.drop_last()) * 10 + (s.last() as u32 - 48) as nat
    }
}

/// Whether `s` is one or more decimal digits.
pub open spec fn all_digits(s: Seq<char>) -> bool {
    s.len() > 0 && forall|i: int| 0 <= i < s.len() ==> is_digit(#[trigger] s[i])
}

/// `s` without a leading sign.
pub open spec fn unsigned_part(s: Seq<char>) -> Seq<char> {
    if s.len() > 0 && (s[0] == '-' || s[0] == '+') {
        s.subrange(1, s.len() as int)
    } else {
        s
    }
}

/// The whole number that `s` spells: an optional sign and decimal digits.
pub open spec fn int_value(s: Seq<char>) -> Option<int> {
    if !all_digits(unsigned_part(s)) {
        None
    } else if s[0] == '-' {
        Some(-(digits_value(unsigned_part(s)) as int))
    } else {
        Some(digits_value(unsigned_part(s)) as int)
    }
}

/// The `i64` that `s` spells.
pub open spec fn i64_value(s: Seq<char>) -> Option<i64> {
    match int_value(s) {
        Some(n) => if i64::MIN <= n && n <= i64::MAX {
            Some(n as i64)
        } else {
            None
        },
        None => None,
    }
}

/// The digit character for `d`.
fn digit_of(d: u8) -> (c: char)
    requires
        d < 16,
    ensures
        c == digit_char(d as int),
{
    if d < 10 {
        (48 + d) as char
    } else {
        (87 + d) as char
    }
}

/// A vector with its order turned round, as a string.
fn reversed_text(v: &Vec<char>) -> (r: String)
    ensures
        r@ == v@.reverse(),
{
    let mut out: String = String::new();
    let mut i: usize = v.len();
    while i > 0
        invariant
            i <= v.len(),
            out@ =~= v@.reverse().take(v.len() - i),
        decreases i,
    {
        i -= 1;
        out.push(v[i]);
    }
    assert(v@.reverse().take(v.len() as int) =~= v@.reverse());
    out
}

/// `n` in decimal.
pub fn decimal_text(n: u64) -> (r: String)
    ensures
        r@ == decimal(n as nat),
{
    let mut out: Vec<char> = Vec::new();
    let mut rest: u64 = n;
    while rest >= 10
        invariant
            decimal(n as nat) == decimal(rest as nat) + out@.reverse(),
        decreases rest,
    {
        let ghost before = out@;
        let c: char = digit_of((rest % 10) as u8);
        out.push(c);
        assert(decimal(rest as nat) == decimal((rest / 10) as nat).push(c));
        assert(decimal((rest / 10) as nat) + out@.reverse() =~= decimal((rest / 10) as nat).push(c)
            + before.reverse());
        rest = rest / 10;
    }
    let ghost before = out@;
    let c: char = digit_of(rest as u8);
    out.push(c);
    assert(out@.reverse() =~= seq![c] + before.reverse());
    reversed_text(&out)
}

/// `n` in decimal, with its sign.
pub fn decimal_int_text(n: i64) -> (r: String)
    ensures
        r@ == decimal_int(n as int),
{
    if n < 0 {
        let magnitude: u64 = (-(n as i128)) as u64;
        let mut out: String = String::new();
        out.push('-');
        let digits: String = decimal_text(magnitude);
        out.append(&digits);
        assert(out@ =~= decimal_int(n as int));
        out
    } else {
        decimal_text(n as u64)
    }
}

/// The last `width` hexadecimal digits of `n`.
pub fn hex_text(n: u64, width: usize) -> (r: String)
    ensures
        r@ == hex_digits(n as nat, width as nat),
{
    let mut out: Vec<char> = Vec::new();
    let mut rest: u64 = n;
    let mut left: usize = width;
    while left > 0
        invariant
            left <= width,
            hex_digits(n as nat, width as nat) == hex_digits(rest as nat, left as nat)
                + out@.reverse(),
        decreases left,
    {
        let ghost before = out@;
        let c: char = digit_of((rest % 16) as u8);
        out.push(c);
        assert(hex_digits((rest / 16) as nat, (left - 1) as nat) + out@.reverse() =~= hex_digits(
            (rest / 16) as nat,
            (left - 1) as nat,
        ).push(c) + before.reverse());
        rest = rest / 16;
        left -= 1;
    }
    assert(hex_digits(rest as nat, 0) + out@.reverse() =~= out@.reverse());
    reversed_text(&out)
}

/// Whether `s` is one or more decimal digits.
pub fn digits_only(s: &str) -> (r: bool)
    ensures
        r == all_digits(s@),
{
    let v: Vec<char> = chars_of(s);
    let mut i: usize = 0;
    while i < v.len()
        invariant
            i <= v.len(),
            v@ == s@,
            forall|j: int| 0 <= j < i ==> is_digit(#[trigger] v@[j]),
        decreases v.len() - i,
    {
        if !char_is_digit(v[i]) {
            assert(!is_digit(s@[i as int]));
            return false;
        }
        i += 1;
    }
    v.len() > 0
}

/// The number that the digits of `v` from `lo` on spell, up to the largest `u64`.
fn digits_number(v: &Vec<char>, lo: usize) -> (r: Option<u64>)
    requires
        lo <= v.len(),
    ensures
        ({
            let s = v@.subrange(lo as int, v.len() as int);
            match r {
                Some(n) => all_digits(s) && digits_value(s) == n,
                None => !all_digits(s) || digits_value(s) > u64::MAX,
            }
        }),
{
    let ghost s = v@.subrange(lo as int, v.len() as int);
    if lo == v.len() {
        return None;
    }
    let mut acc: u64 = 0;
    let mut i: usize = lo;
    let mut over: bool = false;
    assert(s.take(0) =~= seq![]);
    while i < v.len()
        invariant
            lo <= i <= v.len(),
            s == v@.subrange(lo as int, v.len() as int),
            forall|j: int| lo <= j < i ==> is_digit(#[trigger] v@[j]),
            over ==> digits_value(s.take(i - lo)) > u64::MAX,
            !over ==> digits_value(s.take(i - lo)) == acc,
        decreases v.len() - i,
    {
        let c: char = v[i];
        if !char_is_digit(c) {
            assert(!is_digit(s[i - lo]));
            return None;
        }
        assert(s.take(i - lo + 1).drop_last() =~= s.take(i - lo));
        let d: u64 = (c as u32 - 48) as u64;
        if !over {
            let wide: u128 = (acc as u128) * 10 + (d as u128);
            if wide > u64::MAX as u128 {
                over = true;
            } else {
                acc = wide as u64;
            }
        }
        i += 1;
    }
    assert(s.take(i - lo) =~= s);
    assert forall|j: int| 0 <= j < s.len() implies is_digit(#[trigger] s[j]) by {
        assert(is_digit(v@[lo + j]));
    }
    if over {
        None
    } else {
        Some(acc)
    }
}

/// The `i64` that `s` spells: an optional sign and decimal digits, in range.
pub fn parse_i64(s: &str) -> (r: Option<i64>)
    ensures
        r == i64_value(s@),
{
    let v: Vec<char> = chars_of(s);
    if v.len() == 0 {
        return None;
    }
    let signed: bool = v[0] == '-' || v[0] == '+';
    let lo: usize = if signed { 1 } else { 0 };
    assert(v@.subrange(lo as int, v.len() as int) =~= unsigned_part(s@));
    match digits_number(&v, lo) {
        None => None,
        Some(n) => {
            let wide: i128 = if v[0] == '-' { -(n as i128) } else { n as i128 };
            if wide < i64::MIN as i128 || wide > i64::MAX as i128 {
                None
            } else {
                Some(wide as i64)
            }
        }
    }
}

/// The `u64` that `s` spells: an optional plus sign and decimal digits, in range.
pub open spec fn u64_value(s: Seq<char>) -> Option<u64> {
    match int_value(s) {
        Some(n) => if s[0] != '-' && n <= u64::MAX {
            Some(n as u64)
        } else {
            None
        },
        None => None,
    }
}

/// The `u64` that `s` spells.
pub fn parse_u64(s: &str) -> (r: Option<u64>)
    ensures
        r == u64_value(s@),
{
    let v: Vec<char> = chars_of(s);
    if v.len() == 0 {
        return None;
    }
    let signed: bool = v[0] == '-' || v[0] == '+';
    let lo: usize = if signed { 1 } else { 0 };
    assert(v@.subrange(lo as int, v.len() as int) =~= unsigned_part(s@));
    match digits_number(&v, lo) {
        None => None,
        Some(n) => if v[0] == '-' {
            None
        } else {
            Some(n)
        },
    }
}

/// The `i64` with the bits of `n`.
pub open spec fn as_signed(n: u64) -> i64 {
    if n <= i64::MAX {
        n as i64
    } else {
        (n - 0x1_0000_0000_0000_0000) as i64
    }
}

/// The `i64` with the bits of `n`.
pub fn signed_bits(n: u64) -> (r: i64)
    ensures
        r == as_signed(n),
{
    if n <= i64::MAX as u64 {
        n as i64
    } else {
        ((n as i128) - 0x1_0000_0000_0000_0000i128) as i64
    }
}

/// `n` brought into the range of an `i64`.
pub open spec fn i64_bounded(n: int) -> i64 {
    if n > i64::MAX {
        i64::MAX
    } else if n < i64::MIN {
        i64::MIN
    } else {
        n as i64
    }
}

/// The sum of `a` and `b`, brought into range.
pub fn saturating_sum(a: i64, b: i64) -> (r: i64)
    ensures
        r == i64_bounded(a + b),
{
    let wide: i128 = (a as i128) + (b as i128);
    if wide > i64::MAX as i128 {
        i64::MAX
    } else if wide < i64::MIN as i128 {
        i64::MIN
    } else {
        wide as i64
    }
}

/// The difference of `a` and `b`, brought into range.
pub fn saturating_difference(a: i64, b: i64) -> (r: i64)
    ensures
        r == i64_bounded(a - b),
{
    let wide: i128 = (a as i128) - (b as i128);
    if wide > i64::MAX as i128 {
        i64::MAX
    } else if wide < i64::MIN as i128 {
        i64::MIN
    } else {
        wide as i64
    }
}

/// `n` held between `lo` and `hi`.
pub open spec fn clamped(n: u64, lo: u64, hi: u64) -> u64 {
    if n < lo {
        lo
    } else if n > hi {
        hi
    } else {
        n
    }
}

/// `n` held between `lo` and `hi`.
pub fn clamp_u64(n: u64, lo: u64, hi: u64) -> (r: u64)
    requires
        lo <= hi,
    ensures
        r == clamped(n, lo, hi),
{
    if n < lo {
        lo
    } else if n > hi {
        hi
    } else {
        n
    }
}

/// Reading back what is written in decimal gives the number.
pub proof fn law_decimal_reads_back(n: nat)
    ensures
        all_digits(decimal(n)),
        digits_value(decimal(n)) == n,
    decreases n,
{
    if n < 10 {
        let s = decimal(n);
        assert(s.drop_last() =~= seq![]);
        assert(digits_value(s.drop_last()) == 0);
    } else {
        law_decimal_reads_back(n / 10);
        let s = decimal(n);
        assert(s.drop_last() =~= decimal(n / 10));
        assert forall|i: int| 0 <= i < s.len() implies is_digit(#[trigger] s[i]) by {
            if i < s.len() - 1 {
                assert(s[i] == decimal(n / 10)[i]);
            }
        }
    }
}

/// A whole number that is written in digits is read back, with its sign.
pub proof fn law_numbers_read_back(n: int)
    ensures
        int_value(decimal_int(n)) == Some(n),
        i64::MIN <= n <= i64::MAX ==> i64_value(decimal_int(n)) == Some(n as i64),
        0 <= n <= u64::MAX ==> u64_value(decimal_int(n)) == Some(n as u64),
{
    let s = decimal_int(n);
    if n < 0 {
        law_decimal_reads_back((-n) as nat);
        assert(unsigned_part(s) =~= decimal((-n) as nat));
    } else {
        law_decimal_reads_back(n as nat);
        assert(is_digit(s[0]));
        assert(unsigned_part(s) == s);
    }
}

/// A decimal has no white space and does not start with a nought, unless it is one; it
/// grows by a digit with every ten.
pub proof fn law_decimal_is_short(n: nat)
    ensures
        forall|i: int| 0 <= i < decimal(n).len() ==> is_digit(#[trigger] decimal(n)[i]),
        decimal(n).len() > 0,
        n > 0 ==> decimal(n)[0] != '0',
        decimal(n * 10).len() == decimal(n).len() + (if n > 0 {
            1int
        } else {
            0
        }),
    decreases n,
{
    law_decimal_reads_back(n);
    if n >= 10 {
        law_decimal_is_short(n / 10);
        assert(decimal(n)[0] == decimal(n / 10)[0]);
    }
    assert((n * 10) / 10 == n);
}

/// What is bounded stays within the bounds, and stays itself where it is within them.
pub proof fn law_clamped_is_between(n: u64, lo: u64, hi: u64, m: int)
    requires
        lo <= hi,
    ensures
        lo <= clamped(n, lo, hi) <= hi,
        lo <= n <= hi ==> clamped(n, lo, hi) == n,
        i64::MIN <= m <= i64::MAX ==> i64_bounded(m) == m,
        m > i64::MAX ==> i64_bounded(m) == i64::MAX,
        m < i64::MIN ==> i64_bounded(m) == i64::MIN,
{
}

} // verus!
