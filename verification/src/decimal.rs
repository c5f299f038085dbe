//! Whole numbers in decimal notation: reading them and writing them.

use vstd::prelude::*;

verus! {

/// Whether `c` is one of the ten ASCII digits.
pub open spec fn is_digit(c: char) -> bool {
    0x30 <= c as u32 <= 0x39
}

/// The value of the digit `c`; zero for any other character.
pub open spec fn digit_value(c: char) -> nat {
    if is_digit(c) {
        (c as u32 - 0x30) as nat
    } else {
        0
    }
}

/// The digit that stands for `d`.
pub open spec fn digit_char(d: nat) -> char
    recommends
        d < 10,
{
    (0x30 + d) as char
}

/// Whether `s` is made of digits only.
pub open spec fn all_digits(s: Seq<char>) -> bool {
    forall|i: int| 0 <= i < s.len() ==> is_digit(#[trigger] s[i])
}

/// Whether `s` is a numeral: one digit or more, and nothing else.
pub open spec fn is_numeral(s: Seq<char>) -> bool {
    s.len() > 0 && all_digits(s)
}

/// The number that the digits `s` denote, the leftmost digit counting
/// most.
pub open spec fn decimal_value(s: Seq<char>) -> nat
    decreases s.len(),
{
    if s.len() == 0 {
        0
    } else {
        decimal_value(s.drop_last()) * 10 + digit_value(s.last())
    }
}

/// The decimal notation of `n`, without leading zeros.
pub open spec fn decimal_text(n: nat) -> Seq<char>
    decreases n,
{
    if n < 10 {
        seq![digit_char(n)]
    } else {
        decimal_text(n / 10).push(digit_char(n % 10))
    }
}

/// The decimal notation of `v`, with a minus sign where it is negative.
pub open spec fn int_text(v: int) -> Seq<char> {
    if v < 0 {
        seq!['-'] + decimal_text((-v) as nat)
    } else {
        decimal_text(v as nat)
    }
}

/// The number that `s` denotes, where `s` is one digit or more.
pub open spec fn unsigned_value(s: Seq<char>) -> Option<nat> {
    if s.len() > 0 && all_digits(s) {
        Some(decimal_value(s))
    } else {
        None
    }
}

/// The number that `s` denotes, where `s` is an optional sign followed by
/// one digit or more.
pub open spec fn signed_value(s: Seq<char>) -> Option<int> {
    if s.len() > 0 && s[0] == '-' {
        match unsigned_value(s.skip(1)) {
            Some(v) => Some(-(v as int)),
            None => None,
        }
    } else if s.len() > 0 && s[0] == '+' {
        match unsigned_value(s.skip(1)) {
            Some(v) => Some(v as int),
            None => None,
        }
    } else {
        match unsigned_value(s) {
            Some(v) => Some(v as int),
            None => None,
        }
    }
}

/// What `s` reads as a 32-bit signed number: an optional sign, then
/// digits, the value within the range of the type.
pub open spec fn i32_of_text(s: Seq<char>) -> Option<i32> {
    match signed_value(s) {
        Some(v) if i32::MIN <= v <= i32::MAX => Some(v as i32),
        _ => None,
    }
}

/// What `s` reads as a 32-bit unsigned number: an optional plus sign, then
/// digits, the value within the range of the type.
pub open spec fn u32_of_text(s: Seq<char>) -> Option<u32> {
    let digits = if s.len() > 0 && s[0] == '+' {
        s.skip(1)
    } else {
        s
    };
    match unsigned_value(digits) {
        Some(v) if v <= u32::MAX => Some(v as u32),
        _ => None,
    }
}

/// A longer run of digits denotes no smaller number than its beginning.
pub proof fn lemma_decimal_value_grows(s: Seq<char>, n: int)
    requires
        0 <= n <= s.len(),
    ensures
        decimal_value(s.take(n)) <= decimal_value(s),
    decreases s.len() - n,
{
    if n == s.len() {
        assert(s.take(n) == s);
    } else {
        lemma_decimal_value_grows(s.drop_last(), n);
        assert(s.drop_last().take(n) == s.take(n));
    }
}

/// Writing a number and reading the digits gives the number back.
pub proof fn lemma_decimal_text(n: nat)
    ensures
        decimal_text(n).len() >= 1,
        all_digits(decimal_text(n)),
        decimal_value(decimal_text(n)) == n,
    decreases n,
{
    if n < 10 {
        let s = seq![digit_char(n)];
        assert(s.drop_last() == Seq::<char>::empty());
        assert(decimal_value(s.drop_last()) == 0);
        assert(s.last() == digit_char(n));
    } else {
        lemma_decimal_text(n / 10);
        let s = decimal_text(n);
        let t = decimal_text(n / 10);
        assert(s.drop_last() == t);
        assert(s.last() == digit_char(n % 10));
        assert forall|i: int| 0 <= i < s.len() implies is_digit(#[trigger] s[i]) by {
            if i < t.len() {
                assert(s[i] == t[i]);
            }
        }
    }
}

/// Reading back what `int_text` wrote gives the number it was written
/// from.
pub proof fn lemma_int_text_round_trip(v: int)
    ensures
        signed_value(int_text(v)) == Some(v),
{
    if v < 0 {
        let n = (-v) as nat;
        lemma_decimal_text(n);
        assert(int_text(v).skip(1) == decimal_text(n));
    } else {
        let s = decimal_text(v as nat);
        lemma_decimal_text(v as nat);
        assert(is_digit(s[0]));
    }
}

/// The value of the digits of `s`, where `s` is one digit or more and the
/// value is at most `limit`.
fn read_digits(s: &Vec<char>, from: usize, limit: u64) -> (r: Option<u64>)
    requires
        from <= s.len(),
        limit <= 0xffff_ffff,
    ensures
        r == match unsigned_value(s@.skip(from as int)) {
            Some(v) if v <= limit => Some(v as u64),
            _ => None,
        },
{
    let ghost digits = s@.skip(from as int);
    if from == s.len() {
        return None;
    }
    let mut acc: u64 = 0;
    let mut i: usize = from;
    while i < s.len()
        invariant
            from <= i <= s.len(),
            limit <= 0xffff_ffff,
            digits == s@.skip(from as int),
            all_digits(digits.take(i - from)),
            acc == decimal_value(digits.take(i - from)),
            acc <= limit,
        decreases s.len() - i,
    {
        let c = s[i];
        let n: u32 = c as u32;
        let ghost next = digits.take(i - from + 1);
        proof {
            assert(next.drop_last() == digits.take(i - from));
            assert(next.last() == c);
        }
        if n < 0x30 || n > 0x39 {
            proof {
                assert(digits[i - from] == c);
            }
            return None;
        }
        let d: u64 = (n - 0x30) as u64;
        acc = acc * 10 + d;
        proof {
            assert(acc == decimal_value(next));
            assert forall|k: int| 0 <= k < next.len() implies is_digit(#[trigger] next[k]) by {
                if k < i - from {
                    assert(next[k] == digits.take(i - from)[k]);
                }
            }
        }
        if acc > limit {
            proof {
                lemma_decimal_value_grows(digits, i - from + 1);
            }
            return None;
        }
        i += 1;
    }
    proof {
        assert(digits.take(i - from) == digits);
    }
    Some(acc)
}

/// Whether `s` is a numeral.
pub fn numeral(s: &Vec<char>) -> (b: bool)
    ensures
        b == is_numeral(s@),
{
    if s.len() == 0 {
        return false;
    }
    let mut i: usize = 0;
    while i < s.len()
        invariant
            i <= s.len(),
            forall|k: int| 0 <= k < i ==> is_digit(#[trigger] s@[k]),
        decreases s.len() - i,
    {
        let n: u32 = s[i] as u32;
        if n < 0x30 || n > 0x39 {
            return false;
        }
        i += 1;
    }
    true
}

/// Reads `s` as a 32-bit signed number.
pub fn parse_i32(s: &Vec<char>) -> (r: Option<i32>)
    ensures
        r == i32_of_text(s@),
{
    proof {
        assert(s@.skip(0) == s@);
    }
    if s.len() > 0 && s[0] == '-' {
        match read_digits(s, 1, 0x8000_0000) {
            Some(v) => Some((0 - (v as i64)) as i32),
            None => None,
        }
    } else if s.len() > 0 && s[0] == '+' {
        match read_digits(s, 1, 0x7fff_ffff) {
            Some(v) => Some(v as i32),
            None => None,
        }
    } else {
        match read_digits(s, 0, 0x7fff_ffff) {
            Some(v) => Some(v as i32),
            None => None,
        }
    }
}

/// Reads `s` as a 32-bit unsigned number.
pub fn parse_u32(s: &Vec<char>) -> (r: Option<u32>)
    ensures
        r == u32_of_text(s@),
{
    proof {
        assert(s@.skip(0) == s@);
    }
    let from: usize = if s.len() > 0 && s[0] == '+' {
        1
    } else {
        0
    };
    match read_digits(s, from, 0xffff_ffff) {
        Some(v) => Some(v as u32),
        None => None,
    }
}

/// Appends the decimal notation of `n` to `out`.
fn push_decimal(out: &mut Vec<char>, n: u64)
    ensures
        final(out)@ == old(out)@ + decimal_text(n as nat),
    decreases n,
{
    if n >= 10 {
        push_decimal(out, n / 10);
    }
    let d: u8 = (n % 10) as u8;
    let c: char = (0x30 + d) as char;
    assert(c == digit_char((n % 10) as nat));
    out.push(c);
    proof {
        if n >= 10 {
            assert((old(out)@ + decimal_text((n / 10) as nat)).push(c) == old(out)@
                + decimal_text(n as nat));
        } else {
            assert(old(out)@.push(c) == old(out)@ + decimal_text(n as nat));
        }
    }
}

/// The decimal notation of `v`.
pub fn format_i32(v: i32) -> (r: Vec<char>)
    ensures
        r@ == int_text(v as int),
{
    let mut r: Vec<char> = Vec::new();
    if v < 0 {
        r.push('-');
        push_decimal(&mut r, (0 - (v as i64)) as u64);
    } else {
        push_decimal(&mut r, v as u64);
        assert(r@ == decimal_text(v as nat));
    }
    r
}

/// The decimal notation of `v`.
pub fn format_u32(v: u32) -> (r: Vec<char>)
    ensures
        r@ == decimal_text(v as nat),
{
    let mut r: Vec<char> = Vec::new();
    push_decimal(&mut r, v as u64);
    assert(r@ == decimal_text(v as nat));
    r
}

} // verus!
