//! Decimal notation of integers: reading and writing.
use vstd::prelude::*;
use crate::text::{append_chars, slice_chars};

verus! {

/// The digit that stands for `d`, for `d` below ten.
pub open spec fn digit_char(d: int) -> char {
    if d == 0 {
        '0'
    } else if d == 1 {
        '1'
    } else if d == 2 {
        '2'
    } else if d == 3 {
        '3'
    } else if d == 4 {
        '4'
    } else if d == 5 {
        '5'
    } else if d == 6 {
        '6'
    } else if d == 7 {
        '7'
    } else if d == 8 {
        '8'
    } else {
        '9'
    }
}

/// Whether `c` is one of the ten ASCII digits.
pub open spec fn is_digit(c: char) -> bool {
    '0' <= c && c <= '9'
}

/// The value of an ASCII digit.
pub open spec fn digit_value(c: char) -> int {
    c as u32 - 0x30
}

/// Whether `s` holds ASCII digits only.
pub open spec fn all_digits(s: Seq<char>) -> bool {
    forall|i: int| 0 <= i < s.len() ==> is_digit(#[trigger] s[i])
}

/// The number that a row of digits denotes.
pub open spec fn digits_value(s: Seq<char>) -> int
    decreases s.len(),
{
    if s.len() == 0 {
        0
    } else {
        10 * digits_value(s.drop_last()) + digit_value(s.last())
    }
}

/// The shortest decimal notation of `n`.
pub open spec fn decimal(n: nat) -> Seq<char>
    decreases n,
{
    if n < 10 {
        seq![digit_char(n as int)]
    } else {
        decimal(n / 10).push(digit_char((n % 10) as int))
    }
}

/// The decimal notation of `n`, led by `-` where `n` is negative.
pub open spec fn signed_decimal(n: int) -> Seq<char> {
    if n < 0 {
        seq!['-'] + decimal((-n) as nat)
    } else {
        decimal(n as nat)
    }
}

/// The number that `s` denotes if `s` is one or more digits and the number is at most `max`.
pub open spec fn parse_digits(s: Seq<char>, max: int) -> Option<int> {
    if s.len() > 0 && all_digits(s) && digits_value(s) <= max {
        Some(digits_value(s))
    } else {
        None
    }
}

/// The number that `s` denotes: digits, with an optional `+` in front.
pub open spec fn parse_unsigned(s: Seq<char>, max: int) -> Option<int> {
    if s.len() > 0 && s[0] == '+' {
        parse_digits(s.drop_first(), max)
    } else {
        parse_digits(s, max)
    }
}

/// The number that `s` denotes: digits, with an optional `+` or `-` in front.
pub open spec fn parse_signed(s: Seq<char>, min: int, max: int) -> Option<int> {
    if s.len() > 0 && s[0] == '-' {
        match parse_digits(s.drop_first(), -min) {
            Some(n) => Some(-n),
            None => None,
        }
    } else {
        parse_unsigned(s, max)
    }
}

proof fn lemma_digits_value_grows(s: Seq<char>, k: int)
    requires
        all_digits(s),
        0 <= k <= s.len(),
    ensures
        0 <= digits_value(s.take(k)) <= digits_value(s),
    decreases s.len(),
{
    if s.len() == 0 {
        assert(s.take(k) == s);
    } else if k == s.len() {
        assert(s.take(k) == s);
        lemma_digits_value_grows(s.drop_last(), k - 1);
    } else {
        lemma_digits_value_grows(s.drop_last(), k);
        assert(s.drop_last().take(k) == s.take(k));
        assert(is_digit(s[s.len() - 1]));
    }
}

/// Reads a row of digits as a number of at most `max`.
pub fn read_digits(chars: &Vec<char>, max: u64) -> (r: Option<u64>)
    ensures
        match r {
            Some(n) => parse_digits(chars@, max as int) == Some(n as int),
            None => parse_digits(chars@, max as int) is None,
        },
{
    if chars.len() == 0 {
        return None;
    }
    let mut n: u64 = 0;
    let mut i: usize = 0;
    while i < chars.len()
        invariant
            i <= chars.len(),
            n <= max,
            forall|j: int| 0 <= j < i ==> is_digit(#[trigger] chars@[j]),
            n == digits_value(chars@.take(i as int)),
        decreases chars.len() - i,
    {
        let c = chars[i];
        assert(c == chars@[i as int]);
        if !('0' <= c && c <= '9') {
            assert(!is_digit(chars@[i as int]));
            return None;
        }
        assert(chars@.take(i + 1).drop_last() == chars@.take(i as int));
        let d: u64 = (c as u32 - 0x30) as u64;
        let wide: u128 = n as u128 * 10 + d as u128;
        if wide > max as u128 {
            proof {
                if all_digits(chars@) {
                    lemma_digits_value_grows(chars@, i + 1);
                }
            }
            return None;
        }
        n = wide as u64;
        i += 1;
    }
    assert(chars@.take(i as int) == chars@);
    Some(n)
}

/// Reads an unsigned number of at most `max`.
pub fn read_unsigned(chars: &Vec<char>, max: u64) -> (r: Option<u64>)
    ensures
        match r {
            Some(n) => parse_unsigned(chars@, max as int) == Some(n as int),
            None => parse_unsigned(chars@, max as int) is None,
        },
{
    if chars.len() > 0 && chars[0] == '+' {
        let rest = slice_chars(chars, 1, chars.len());
        assert(rest@ == chars@.drop_first());
        read_digits(&rest, max)
    } else {
        read_digits(chars, max)
    }
}

/// Reads a signed 32-bit number.
pub fn read_i32(chars: &Vec<char>) -> (r: Option<i32>)
    ensures
        match r {
            Some(n) => parse_signed(chars@, i32::MIN as int, i32::MAX as int) == Some(n as int),
            None => parse_signed(chars@, i32::MIN as int, i32::MAX as int) is None,
        },
{
    if chars.len() > 0 && chars[0] == '-' {
        let rest = slice_chars(chars, 1, chars.len());
        assert(rest@ == chars@.drop_first());
        match read_digits(&rest, 2147483648) {
            Some(n) => {
                proof {
                    lemma_digits_value_grows(rest@, 0);
                }
                Some((-(n as i64)) as i32)
            },
            None => None,
        }
    } else {
        match read_unsigned(chars, 2147483647) {
            Some(n) => Some(n as i32),
            None => None,
        }
    }
}

fn write_digit(d: u64) -> (c: char)
    requires
        d < 10,
    ensures
        c == digit_char(d as int),
{
    if d == 0 {
        '0'
    } else if d == 1 {
        '1'
    } else if d == 2 {
        '2'
    } else if d == 3 {
        '3'
    } else if d == 4 {
        '4'
    } else if d == 5 {
        '5'
    } else if d == 6 {
        '6'
    } else if d == 7 {
        '7'
    } else if d == 8 {
        '8'
    } else {
        '9'
    }
}

/// The decimal notation of `n`.
pub fn write_u64(n: u64) -> (v: Vec<char>)
    ensures
        v@ == decimal(n as nat),
    decreases n,
{
    let mut v: Vec<char> = if n < 10 {
        Vec::new()
    } else {
        write_u64(n / 10)
    };
    v.push(write_digit(n % 10));
    assert(n < 10 ==> v@ =~= decimal(n as nat));
    v
}

/// The decimal notation of `n`, led by `-` where `n` is negative.
pub fn write_i32(n: i32) -> (v: Vec<char>)
    ensures
        v@ == signed_decimal(n as int),
{
    if n < 0 {
        let mut v: Vec<char> = Vec::new();
        v.push('-');
        append_chars(&mut v, &write_u64((-(n as i64)) as u64));
        assert(v@ =~= signed_decimal(n as int));
        v
    } else {
        write_u64(n as u64)
    }
}

/// The decimal notation of a number is a row of digits that denotes it.
pub proof fn lemma_decimal_digits(n: nat)
    ensures
        decimal(n).len() > 0,
        all_digits(decimal(n)),
        digits_value(decimal(n)) == n,
    decreases n,
{
    let s = decimal(n);
    if n < 10 {
        assert(s.drop_last() =~= Seq::empty());
        assert(digits_value(s.drop_last()) == 0);
    } else {
        lemma_decimal_digits(n / 10);
        assert(s.drop_last() == decimal(n / 10));
    }
}

/// A number that was read lies between the bounds it was read with.
pub proof fn law_parsed_number_is_in_range(s: Seq<char>, min: int, max: int)
    requires
        min <= 0 <= max,
    ensures
        parse_signed(s, min, max) matches Some(n) ==> min <= n <= max,
        parse_unsigned(s, max) matches Some(n) ==> 0 <= n <= max,
{
    if s.len() > 0 && all_digits(s.drop_first()) {
        lemma_digits_value_grows(s.drop_first(), 0);
    }
    if all_digits(s) {
        lemma_digits_value_grows(s, 0);
    }
}

/// Reading gives back what was written: the decimal notation of a number is read as
/// that number wherever it is within the limit.
pub proof fn law_decimal_round_trip(n: nat, max: int)
    requires
        n <= max,
    ensures
        parse_unsigned(decimal(n), max) == Some(n as int),
{
    lemma_decimal_digits(n);
    assert(is_digit(decimal(n)[0]));
}

/// The ten digits: the digit for a number below ten has that value, and no other character is a
/// digit.
pub proof fn law_digits(d: int, c: char)
    ensures
        0 <= d < 10 ==> is_digit(digit_char(d)) && digit_value(digit_char(d)) == d,
        is_digit(c) <==> seq!['0', '1', '2', '3', '4', '5', '6', '7', '8', '9'].contains(c),
        is_digit(c) ==> 0 <= digit_value(c) < 10 && digit_char(digit_value(c)) == c,
{
    let list = seq!['0', '1', '2', '3', '4', '5', '6', '7', '8', '9'];
    assert(list[0] == '0' && list[1] == '1' && list[2] == '2' && list[3] == '3' && list[4] == '4'
        && list[5] == '5' && list[6] == '6' && list[7] == '7' && list[8] == '8' && list[9] == '9');
}

/// The decimal notation of a number but zero does not begin with `0`, and that of another
/// number is another one.
pub proof fn law_decimal_is_unambiguous(n: nat, m: nat)
    ensures
        n > 0 ==> decimal(n)[0] != '0',
        decimal(n) == decimal(m) <==> n == m,
    decreases n,
{
    lemma_decimal_digits(n);
    lemma_decimal_digits(m);
    if n >= 10 {
        law_decimal_is_unambiguous(n / 10, m);
        lemma_decimal_digits(n / 10);
    }
}

/// Reading gives back what was written, also of negative numbers, and also with a `+` in front
/// of one that is not.
pub proof fn law_signed_round_trip(n: int, min: int, max: int)
    requires
        min <= n <= max,
    ensures
        parse_signed(signed_decimal(n), min, max) == Some(n),
        n >= 0 ==> parse_signed(seq!['+'] + decimal(n as nat), min, max) == Some(n),
        n >= 0 ==> parse_unsigned(seq!['+'] + decimal(n as nat), max) == Some(n),
        n < 0 ==> signed_decimal(n) == seq!['-'] + decimal((-n) as nat),
        n >= 0 ==> signed_decimal(n) == decimal(n as nat),
{
    if n < 0 {
        let d = decimal((-n) as nat);
        lemma_decimal_digits((-n) as nat);
        assert((seq!['-'] + d).drop_first() =~= d);
        assert((seq!['-'] + d)[0] == '-');
    } else {
        let d = decimal(n as nat);
        lemma_decimal_digits(n as nat);
        assert(is_digit(d[0]));
        assert((seq!['+'] + d).drop_first() =~= d);
        assert((seq!['+'] + d)[0] == '+');
    }
}

/// A row of digits denotes its last digit and ten times what stands before it, so zeros in
/// front of it do not matter.
pub proof fn law_row_of_digits(s: Seq<char>, c: char)
    ensures
        digits_value(s.push(c)) == 10 * digits_value(s) + digit_value(c),
        digits_value(seq!['0'] + s) == digits_value(s),
    decreases s.len(),
{
    assert(s.push(c).drop_last() =~= s);
    let led = seq!['0'] + s;
    if s.len() == 0 {
        assert(led.drop_last() =~= Seq::empty());
        assert(led.last() == '0');
        assert(digits_value(led.drop_last()) == 0);
    } else {
        law_row_of_digits(s.drop_last(), s.last());
        assert(led.drop_last() =~= seq!['0'] + s.drop_last());
        assert(led.last() == s.last());
    }
}

/// A text is not a number if it is empty, holds a sign and nothing more, holds a character
/// beyond its first one that is not a digit, or begins with one that is neither digit nor sign;
/// and a number over the limit is not read.
pub proof fn law_other_texts_are_not_numbers(s: Seq<char>, at: int, min: int, max: int)
    ensures
        s.len() == 0 ==> parse_unsigned(s, max) is None && parse_signed(s, min, max) is None,
        s.len() == 1 && !is_digit(s[0]) ==> parse_unsigned(s, max) is None && parse_signed(
            s,
            min,
            max,
        ) is None,
        0 < at < s.len() && !is_digit(s[at]) ==> parse_unsigned(s, max) is None && parse_signed(
            s,
            min,
            max,
        ) is None,
        s.len() > 0 && !is_digit(s[0]) && s[0] != '+' ==> parse_unsigned(s, max) is None,
        s.len() > 0 && !is_digit(s[0]) && s[0] != '+' && s[0] != '-' ==> parse_signed(s, min, max)
            is None,
        all_digits(s) && digits_value(s) > max ==> parse_unsigned(s, max) is None && parse_signed(
            s,
            min,
            max,
        ) is None,
{
    if 0 < at < s.len() {
        assert(s.drop_first()[at - 1] == s[at]);
    }
}

/// Every row of digits is read as the number it denotes, zeros in front of it or not, with or
/// without a sign; `-` turns the number round.
pub proof fn law_rows_of_digits_are_read(s: Seq<char>, min: int, max: int)
    requires
        s.len() > 0,
        forall|i: int| 0 <= i < s.len() ==> '0' <= #[trigger] s[i] && s[i] <= '9',
    ensures
        digits_value(s) <= max ==> parse_unsigned(s, max) == Some(digits_value(s)),
        digits_value(s) <= max ==> parse_unsigned(seq!['+'] + s, max) == Some(digits_value(s)),
        digits_value(s) <= max ==> parse_signed(s, min, max) == Some(digits_value(s)),
        digits_value(s) <= max ==> parse_signed(seq!['+'] + s, min, max) == Some(digits_value(s)),
        digits_value(s) <= -min ==> parse_signed(seq!['-'] + s, min, max) == Some(
            -digits_value(s),
        ),
        digits_value(s) > max ==> parse_unsigned(s, max) is None && parse_unsigned(
            seq!['+'] + s,
            max,
        ) is None && parse_signed(s, min, max) is None && parse_signed(seq!['+'] + s, min, max)
            is None,
        digits_value(s) > -min ==> parse_signed(seq!['-'] + s, min, max) is None,
{
    assert forall|i: int| 0 <= i < s.len() implies is_digit(#[trigger] s[i]) by {
        assert('0' <= s[i] && s[i] <= '9');
    }
    assert(is_digit(s[0]));
    assert((seq!['+'] + s).drop_first() =~= s);
    assert((seq!['-'] + s).drop_first() =~= s);
    assert((seq!['+'] + s)[0] == '+' && (seq!['-'] + s)[0] == '-');
}

} // verus!
