//! Integers in text: reading them the way the standard library's `FromStr` does, and writing them.

use vstd::arithmetic::mul::lemma_mul_nonnegative;
use vstd::prelude::*;

verus! {

/// Whether `c` is one of the first `radix` decimal digits.
pub open spec fn is_digit(c: char, radix: int) -> bool {
    '0' as int <= c as int && (c as int) < '0' as int + radix
}

/// Whether `s` holds nothing but digits below `radix`.
pub open spec fn all_digits(s: Seq<char>, radix: int) -> bool {
    forall|i: int| 0 <= i < s.len() ==> is_digit(#[trigger] s[i], radix)
}

/// The number that a row of digits stands for, the most significant digit first.
pub open spec fn digits_value(s: Seq<char>, radix: int) -> int
    decreases s.len(),
{
    if s.len() == 0 {
        0
    } else {
        digits_value(s.drop_last(), radix) * radix + (s.last() as int - '0' as int)
    }
}

/// The number that `s` stands for if it is a non-empty row of digits.
pub open spec fn digits_number(s: Seq<char>, radix: int) -> Option<int> {
    if s.len() > 0 && all_digits(s, radix) {
        Some(digits_value(s, radix))
    } else {
        None
    }
}

/// The number that `s` stands for if it is a row of digits behind an optional `+`.
pub open spec fn unsigned_number(s: Seq<char>, radix: int) -> Option<int> {
    if s.len() > 0 && s[0] == '+' {
        digits_number(s.skip(1), radix)
    } else {
        digits_number(s, radix)
    }
}

/// The number that `s` stands for if it is a row of decimal digits behind an optional `+` or `-`.
pub open spec fn signed_number(s: Seq<char>) -> Option<int> {
    if s.len() > 0 && s[0] == '-' {
        match digits_number(s.skip(1), 10) {
            Some(v) => Some(-v),
            None => None,
        }
    } else {
        unsigned_number(s, 10)
    }
}

/// `n`, if there is one and it lies in `low..=high`.
pub open spec fn within(n: Option<int>, low: int, high: int) -> Option<int> {
    match n {
        Some(v) => if low <= v <= high {
            Some(v)
        } else {
            None
        },
        None => None,
    }
}

/// `s` from its first character that is not a `0` on.
pub open spec fn without_leading_zeros(s: Seq<char>) -> Seq<char>
    decreases s.len(),
{
    if s.len() > 0 && s[0] == '0' {
        without_leading_zeros(s.skip(1))
    } else {
        s
    }
}

/// The character of a decimal digit.
pub open spec fn digit_char(d: int) -> char {
    (('0' as int + d) as u8) as char
}

/// A number in decimal, without leading zeros.
pub open spec fn decimal(n: nat) -> Seq<char>
    decreases n,
{
    if n < 10 {
        seq![digit_char(n as int)]
    } else {
        decimal(n / 10).push(digit_char((n % 10) as int))
    }
}

/// A number written in decimal is a row of digits.
pub proof fn decimal_is_digits(n: nat)
    ensures
        decimal(n).len() > 0,
        all_digits(decimal(n), 10),
    decreases n,
{
    if n >= 10 {
        decimal_is_digits(n / 10);
    }
}

/// A number written in decimal reads back as itself.
pub proof fn decimal_reads_back(n: nat)
    ensures
        unsigned_number(decimal(n), 10) == Some(n as int),
        signed_number(decimal(n)) == Some(n as int),
{
    decimal_is_digits(n);
    decimal_value(n);
    assert(is_digit(decimal(n)[0], 10));
}

proof fn decimal_value(n: nat)
    ensures
        digits_value(decimal(n), 10) == n,
    decreases n,
{
    reveal_with_fuel(digits_value, 2);
    if n >= 10 {
        decimal_value(n / 10);
        assert(decimal(n).drop_last() =~= decimal(n / 10));
    }
}

/// Leading zeros do not count in a row of digits.
pub proof fn leading_zero_does_not_count(s: Seq<char>, radix: int)
    requires
        s.len() > 0,
        s[0] == '0',
    ensures
        digits_value(s, radix) == digits_value(s.skip(1), radix),
    decreases s.len(),
{
    reveal_with_fuel(digits_value, 2);
    if s.len() > 1 {
        leading_zero_does_not_count(s.drop_last(), radix);
        assert(s.drop_last().skip(1) =~= s.skip(1).drop_last());
    }
}

/// A row of digits is worth at least each of its beginnings.
proof fn prefix_is_no_larger(s: Seq<char>, n: int, radix: int)
    requires
        0 <= n <= s.len(),
        radix >= 1,
        all_digits(s, radix),
    ensures
        0 <= digits_value(s.take(n), radix) <= digits_value(s, radix),
    decreases s.len(),
{
    if n == s.len() {
        assert(s.take(n) =~= s);
        if s.len() > 0 {
            prefix_is_no_larger(s.drop_last(), s.len() - 1, radix);
            assert(s.drop_last().take(s.len() - 1) =~= s.drop_last());
            assert(is_digit(s[s.len() - 1], radix));
            lemma_mul_nonnegative(digits_value(s.drop_last(), radix), radix);
        }
    } else {
        prefix_is_no_larger(s.drop_last(), n, radix);
        assert(s.drop_last().take(n) =~= s.take(n));
        assert(is_digit(s[s.len() - 1], radix));
        let v = digits_value(s.drop_last(), radix);
        assert(v * radix >= v) by (nonlinear_arith)
            requires
                v >= 0,
                radix >= 1,
        ;
    }
}

fn chars_of(s: &str) -> (chars: Vec<char>)
    ensures
        chars@ == s@,
{
    let mut chars: Vec<char> = Vec::new();
    for c in it: s.chars()
        invariant
            it.seq() == s@,
            chars@ == s@.take(it.index() as int),
    {
        chars.push(c);
        assert(chars@ =~= s@.take(it.index() + 1));
    }
    assert(s@.take(s@.len() as int) =~= s@);
    chars
}

/// Reads the digits from position `from` on, if their number is at most `max`.
fn read_digits(chars: &Vec<char>, from: usize, radix: u64, max: u64) -> (number: Option<u64>)
    requires
        from <= chars@.len(),
        2 <= radix <= 10,
    ensures
        number is Some <==> within(digits_number(chars@.skip(from as int), radix as int), 0, max as int) is Some,
        number matches Some(n) ==> within(
            digits_number(chars@.skip(from as int), radix as int),
            0,
            max as int,
        ) == Some(n as int),
{
    let ghost digits = chars@.skip(from as int);
    if from == chars.len() {
        return None;
    }
    let mut value: u64 = 0;
    let mut i: usize = from;
    assert(digits.take(0) =~= Seq::<char>::empty());
    while i < chars.len()
        invariant
            from < chars@.len(),
            from <= i <= chars@.len(),
            2 <= radix <= 10,
            digits == chars@.skip(from as int),
            all_digits(digits.take(i - from), radix as int),
            value == digits_value(digits.take(i - from), radix as int),
            value <= max,
        decreases chars@.len() - i,
    {
        let c = chars[i];
        let ghost seen = digits.take(i - from);
        let ghost next = digits.take(i - from + 1);
        assert(next.drop_last() =~= seen);
        assert(next.last() == c);
        assert(digits[i - from] == c);
        if c < '0' || c > '9' {
            assert(!is_digit(digits[i - from], radix as int));
            return None;
        }
        let d: u64 = ((c as u8) - ('0' as u8)) as u64;
        if d >= radix {
            assert(!is_digit(digits[i - from], radix as int));
            return None;
        }
        assert(digits_value(next, radix as int) == value * radix + d);
        if d > max || value > (max - d) / radix {
            proof {
                assert(value * radix + d > max) by (nonlinear_arith)
                    requires
                        d > max || value > (max - d) / (radix as int),
                        radix >= 2,
                        value >= 0,
                ;
                if all_digits(digits, radix as int) {
                    prefix_is_no_larger(digits, i - from + 1, radix as int);
                }
            }
            return None;
        }
        assert(value * radix + d <= max) by (nonlinear_arith)
            requires
                d <= max,
                value <= (max - d) / (radix as int),
                radix >= 2,
        ;
        assert(0 <= value * radix) by (nonlinear_arith);
        value = value * radix + d;
        i = i + 1;
    }
    assert(digits.take(digits.len() as int) =~= digits);
    Some(value)
}

/// Reads an unsigned number of at most `max`, with an optional `+` in front, from position `from`.
fn read_unsigned(chars: &Vec<char>, from: usize, radix: u64, max: u64) -> (number: Option<u64>)
    requires
        from <= chars@.len(),
        2 <= radix <= 10,
    ensures
        number is Some <==> within(unsigned_number(chars@.skip(from as int), radix as int), 0, max as int) is Some,
        number matches Some(n) ==> within(
            unsigned_number(chars@.skip(from as int), radix as int),
            0,
            max as int,
        ) == Some(n as int),
{
    if from < chars.len() && chars[from] == '+' {
        assert(chars@.skip(from as int).skip(1) =~= chars@.skip(from + 1));
        read_digits(chars, from + 1, radix, max)
    } else {
        read_digits(chars, from, radix, max)
    }
}

/// Reads a `usize` in decimal: digits behind an optional `+`, and a value that fits.
pub fn parse_usize(s: &str) -> (number: Option<usize>)
    ensures
        match number {
            Some(n) => within(unsigned_number(s@, 10), 0, usize::MAX as int) == Some(n as int),
            None => within(unsigned_number(s@, 10), 0, usize::MAX as int) is None,
        },
{
    let chars = chars_of(s);
    assert(chars@.skip(0) =~= s@);
    match read_unsigned(&chars, 0, 10, usize::MAX as u64) {
        Some(n) => Some(n as usize),
        None => None,
    }
}

/// Reads an `i64` in decimal: digits behind an optional sign, and a value that fits.
pub fn parse_i64(s: &str) -> (number: Option<i64>)
    ensures
        match number {
            Some(n) => within(signed_number(s@), i64::MIN as int, i64::MAX as int) == Some(n as int),
            None => within(signed_number(s@), i64::MIN as int, i64::MAX as int) is None,
        },
{
    let chars = chars_of(s);
    assert(chars@.skip(0) =~= s@);
    if chars.len() > 0 && chars[0] == '-' {
        let ghost digits = chars@.skip(1);
        proof {
            if all_digits(digits, 10) {
                prefix_is_no_larger(digits, 0, 10);
            }
        }
        match read_digits(&chars, 1, 10, 0x8000_0000_0000_0000) {
            Some(n) => if n == 0x8000_0000_0000_0000 {
                Some(i64::MIN)
            } else {
                Some(-(n as i64))
            },
            None => None,
        }
    } else {
        proof {
            let digits = if s@.len() > 0 && s@[0] == '+' { s@.skip(1) } else { s@ };
            if all_digits(digits, 10) {
                prefix_is_no_larger(digits, 0, 10);
            }
        }
        match read_unsigned(&chars, 0, 10, i64::MAX as u64) {
            Some(n) => Some(n as i64),
            None => None,
        }
    }
}

/// Reads a `u32` in octal, with all leading zeros taken off first.
///
/// A text of nothing but zeros has no digit left and is no number.
pub fn parse_octal(s: &str) -> (number: Option<u32>)
    ensures
        match number {
            Some(n) => within(
                unsigned_number(without_leading_zeros(s@), 8),
                0,
                u32::MAX as int,
            ) == Some(n as int),
            None => within(
                unsigned_number(without_leading_zeros(s@), 8),
                0,
                u32::MAX as int,
            ) is None,
        },
{
    let chars = chars_of(s);
    let mut from: usize = 0;
    assert(chars@.skip(0) =~= s@);
    while from < chars.len() && chars[from] == '0'
        invariant
            from <= chars@.len(),
            without_leading_zeros(chars@.skip(from as int)) == without_leading_zeros(s@),
        decreases chars@.len() - from,
    {
        assert(chars@.skip(from as int).skip(1) =~= chars@.skip(from + 1));
        from = from + 1;
    }
    match read_unsigned(&chars, from, 8, u32::MAX as u64) {
        Some(n) => Some(n as u32),
        None => None,
    }
}

/// Writes `n` in decimal.
pub fn to_decimal(n: u64) -> (text: String)
    ensures
        text@ == decimal(n as nat),
    decreases n,
{
    if n < 10 {
        let mut text = String::new();
        text.push(((n as u8) + ('0' as u8)) as char);
        assert(text@ =~= decimal(n as nat));
        text
    } else {
        let mut text = to_decimal(n / 10);
        text.push((((n % 10) as u8) + ('0' as u8)) as char);
        assert(text@ =~= decimal(n as nat));
        text
    }
}

/// A row of digits is read from left to right: each further digit makes the number `radix` times as
/// large and adds its own value.
pub proof fn each_digit_counts(s: Seq<char>, c: char, radix: int)
    ensures
        digits_value(Seq::empty(), radix) == 0,
        digits_value(s.push(c), radix) == digits_value(s, radix) * radix + (c as int - 48),
{
    assert(s.push(c).drop_last() =~= s);
}

/// A row of one or more digits is an unsigned number, its value, and so it is behind one `+`.
pub proof fn rows_of_digits_are_numbers(row: Seq<char>, radix: int)
    requires
        2 <= radix <= 10,
        row.len() > 0,
        forall|i: int|
            0 <= i < row.len() ==> 48 <= (#[trigger] row[i]) as int && (row[i] as int) < 48 + radix,
    ensures
        unsigned_number(row, radix) == Some(digits_value(row, radix)),
        unsigned_number(seq!['+'] + row, radix) == Some(digits_value(row, radix)),
{
    assert(all_digits(row, radix));
    assert((seq!['+'] + row).skip(1) =~= row);
}

/// Nothing else is an unsigned number: an empty text is none, nor a lone `+`, nor a text with a
/// character that is no digit in any place but that of the `+`.
pub proof fn other_texts_are_no_numbers(s: Seq<char>, i: int, radix: int)
    requires
        2 <= radix <= 10,
        0 <= i < s.len(),
        (s[i] as int) < 48 || s[i] as int >= 48 + radix,
        i > 0 || s[i] != '+',
    ensures
        unsigned_number(s, radix) is None,
        unsigned_number(Seq::empty(), radix) is None,
        unsigned_number(seq!['+'], radix) is None,
{
    assert(seq!['+'].skip(1) =~= Seq::<char>::empty());
    assert(!is_digit(s[i], radix));
    if s[0] == '+' {
        assert(s.skip(1)[i - 1] == s[i]);
    }
}

/// A text is a signed number if and only if it is an unsigned one, or a `-` in front of a row of
/// decimal digits, which makes the value negative.
pub proof fn signed_numbers(s: Seq<char>)
    ensures
        s.len() > 0 && s[0] == '-' ==> signed_number(s) == (if s.len() > 1 && s[1] != '+' {
            match unsigned_number(s.skip(1), 10) {
                Some(v) => Some(-v),
                None => None,
            }
        } else {
            None
        }),
        s.len() == 0 || s[0] != '-' ==> signed_number(s) == unsigned_number(s, 10),
{
    if s.len() > 1 && s[0] == '-' && s[1] == '+' {
        assert(!is_digit(s.skip(1)[0], 10));
    }
}

/// A number in range is kept as it is, and any other is dropped.
pub proof fn range_keeps_or_drops(n: Option<int>, low: int, high: int)
    ensures
        within(n, low, high) is Some ==> within(n, low, high) == n,
        within(n, low, high) is Some <==> (n matches Some(v) && low <= v <= high),
{
}

/// Taking off leading zeros takes off all of them and nothing else.
pub proof fn all_leading_zeros_go(s: Seq<char>, n: int)
    requires
        0 <= n <= s.len(),
        forall|i: int| 0 <= i < n ==> #[trigger] s[i] == '0',
        n < s.len() ==> s[n] != '0',
    ensures
        without_leading_zeros(s) == s.skip(n),
    decreases n,
{
    if n > 0 {
        assert(s[0] == '0');
        let rest = s.skip(1);
        assert forall|i: int| 0 <= i < n - 1 implies #[trigger] rest[i] == '0' by {
            assert(rest[i] == s[i + 1]);
        }
        all_leading_zeros_go(rest, n - 1);
        assert(rest.skip(n - 1) =~= s.skip(n));
    } else {
        assert(s.skip(0) =~= s);
    }
}

/// A number is written as one or more of the characters `0` to `9`, with the number as their value,
/// and begins with `0` only if it is zero.
pub proof fn decimal_is_the_number(n: nat)
    ensures
        decimal(n).len() > 0,
        forall|i: int| 0 <= i < decimal(n).len() ==> 48 <= (#[trigger] decimal(n)[i]) as int <= 57,
        digits_value(decimal(n), 10) == n,
        decimal(n)[0] == '0' <==> n == 0,
{
    decimal_is_digits(n);
    decimal_value(n);
    assert forall|i: int| 0 <= i < decimal(n).len() implies 48 <= (#[trigger] decimal(n)[i]) as int
        <= 57 by {
        assert(is_digit(decimal(n)[i], 10));
    }
    decimal_starts(n);
}

proof fn decimal_starts(n: nat)
    ensures
        decimal(n).len() > 0,
        decimal(n)[0] == '0' <==> n == 0,
    decreases n,
{
    if n >= 10 {
        decimal_starts(n / 10);
    }
}

/// Different numbers are written differently.
pub proof fn decimal_tells_numbers_apart(m: nat, n: nat)
    ensures
        decimal(m) == decimal(n) ==> m == n,
{
    decimal_value(m);
    decimal_value(n);
}

/// A row of decimal digits is a signed number, its value, behind a `+` too, and behind a `-` that
/// many below zero; a sign alone is no number.
pub proof fn signed_rows_of_digits(row: Seq<char>)
    requires
        row.len() > 0,
        forall|i: int| 0 <= i < row.len() ==> 48 <= (#[trigger] row[i]) as int <= 57,
    ensures
        digits_value(row, 10) >= 0,
        signed_number(row) == Some(digits_value(row, 10)),
        signed_number(seq!['+'] + row) == Some(digits_value(row, 10)),
        signed_number(seq!['-'] + row) == Some(-digits_value(row, 10)),
        signed_number(Seq::empty()) is None,
        signed_number(seq!['+']) is None,
        signed_number(seq!['-']) is None,
{
    rows_of_digits_are_numbers(row, 10);
    assert(all_digits(row, 10));
    prefix_is_no_larger(row, 0, 10);
    assert((seq!['-'] + row).skip(1) =~= row);
    assert((seq!['-'] + row)[0] == '-');
    assert((seq!['+'] + row)[0] == '+');
    other_texts_are_no_numbers(seq!['x'], 0, 10);
    assert(seq!['-'].skip(1) =~= Seq::<char>::empty());
    assert(48 <= row[0] as int);
}

} // verus!
