//! Numbers in decimal notation: unsigned integers as the protocol writes
//! channel values, and real numbers kept in the notation they arrived in.

use vstd::prelude::*;
use vstd::string::StringExecFns;
use crate::text::to_chars;

verus! {

/// Whether `c` is one of the ten decimal digits.
pub open spec fn is_digit(c: char) -> bool {
    '0' <= c && c <= '9'
}

/// The value of a decimal digit.
pub open spec fn digit_value(c: char) -> nat {
    (c as int - '0' as int) as nat
}

/// Whether `s` consists of decimal digits only.
pub open spec fn all_digits(s: Seq<char>) -> bool {
    forall|i: int| 0 <= i < s.len() ==> is_digit(#[trigger] s[i])
}

/// The number that a string of decimal digits denotes.
pub open spec fn decimal_value(s: Seq<char>) -> nat
    decreases s.len(),
{
    if s.len() == 0 {
        0
    } else {
        decimal_value(s.drop_last()) * 10 + digit_value(s.last())
    }
}

/// `s` without a leading plus sign.
pub open spec fn strip_plus(s: Seq<char>) -> Seq<char> {
    if s.len() > 0 && s[0] == '+' {
        s.skip(1)
    } else {
        s
    }
}

/// The unsigned integer that `s` denotes, if it is an optional plus sign
/// followed by one or more decimal digits whose value is at most `max`.
pub open spec fn parse_unsigned(s: Seq<char>, max: nat) -> Option<nat> {
    let digits = strip_plus(s);
    if digits.len() > 0 && all_digits(digits) && decimal_value(digits) <= max {
        Some(decimal_value(digits))
    } else {
        None
    }
}

/// A prefix of a digit string denotes no more than the whole string.
pub proof fn lemma_decimal_value_prefix(s: Seq<char>, n: int)
    requires
        0 <= n <= s.len(),
    ensures
        decimal_value(s.take(n)) <= decimal_value(s),
    decreases s.len() - n,
{
    if n == s.len() {
        assert(s.take(n) =~= s);
    } else {
        assert(s.drop_last().take(n) =~= s.take(n));
        lemma_decimal_value_prefix(s.drop_last(), n);
    }
}

/// What fits in eight bits also parses as a sixteen-bit value, to the same
/// number: a second, narrower attempt after a failed wide one finds nothing.
pub proof fn lemma_narrow_parse_adds_nothing(s: Seq<char>)
    ensures
        parse_unsigned(s, 0xFFFF) is None ==> parse_unsigned(s, 0xFF) is None,
        parse_unsigned(s, 0xFF) is Some ==> parse_unsigned(s, 0xFFFF) == parse_unsigned(s, 0xFF),
{
}

/// The value of the decimal digit `c`, if it is one.
pub fn digit_of(c: char) -> (d: Option<u8>)
    ensures
        d is Some <==> is_digit(c),
        d matches Some(v) ==> v == digit_value(c) && v <= 9,
{
    if '0' <= c && c <= '9' {
        Some(((c as u32) - 48) as u8)
    } else {
        None
    }
}

/// Reads what follows the first `from` of `chars` as an unsigned decimal
/// integer no larger than `max`.
pub(crate) fn parse_bounded(chars: &Vec<char>, from: usize, max: u32) -> (r: Option<u32>)
    requires
        from <= chars.len(),
        max <= 0xFFFF,
    ensures
        r is Some <==> parse_unsigned(chars@.skip(from as int), max as nat) is Some,
        r matches Some(v) ==> parse_unsigned(chars@.skip(from as int), max as nat) == Some(v as nat),
{
    let ghost text = chars@.skip(from as int);
    let start: usize = if from < chars.len() && chars[from] == '+' { from + 1 } else { from };
    if start == chars.len() {
        return None;
    }
    let ghost digits = strip_plus(text);
    assert(digits =~= chars@.skip(start as int));
    let mut acc: u32 = 0;
    let mut i: usize = start;
    while i < chars.len()
        invariant
            start <= i <= chars.len(),
            max <= 0xFFFF,
            text == chars@.skip(from as int),
            digits == strip_plus(text),
            digits == chars@.skip(start as int),
            all_digits(digits.take(i - start)),
            acc == decimal_value(digits.take(i - start)),
            acc <= max,
        decreases chars.len() - i,
    {
        let ghost k = i - start;
        assert(digits.take(k + 1).drop_last() =~= digits.take(k));
        assert(digits.take(k + 1).last() == chars@[i as int]);
        match digit_of(chars[i]) {
            None => {
                assert(!is_digit(digits[k]));
                return None;
            },
            Some(d) => {
                acc = acc * 10 + d as u32;
                if acc > max {
                    proof {
                        lemma_decimal_value_prefix(digits, k + 1);
                    }
                    return None;
                }
                assert forall|j: int| 0 <= j < k + 1 implies is_digit(
                    #[trigger] digits.take(k + 1)[j],
                ) by {
                    if j < k {
                        assert(digits.take(k)[j] == digits.take(k + 1)[j]);
                    }
                }
            },
        }
        i = i + 1;
    }
    assert(digits.take(i - start) =~= digits);
    Some(acc)
}

/// Reads `text` as a sixteen-bit unsigned decimal integer.
pub fn parse_u16(text: &str) -> (r: Option<u16>)
    ensures
        r is Some <==> parse_unsigned(text@, 0xFFFF) is Some,
        r matches Some(v) ==> parse_unsigned(text@, 0xFFFF) == Some(v as nat),
{
    let chars = to_chars(text);
    assert(chars@.skip(0) =~= chars@);
    match parse_bounded(&chars, 0, 0xFFFF) {
        Some(v) => Some(v as u16),
        None => None,
    }
}

/// Reads `text` as an eight-bit unsigned decimal integer.
pub fn parse_u8(text: &str) -> (r: Option<u8>)
    ensures
        r is Some <==> parse_unsigned(text@, 0xFF) is Some,
        r matches Some(v) ==> parse_unsigned(text@, 0xFF) == Some(v as nat),
{
    let chars = to_chars(text);
    assert(chars@.skip(0) =~= chars@);
    match parse_bounded(&chars, 0, 0xFF) {
        Some(v) => Some(v as u8),
        None => None,
    }
}

/// The decimal digit of value `d`.
pub open spec fn digit_char(d: nat) -> char {
    ('0' as nat + d) as char
}

/// `n` in decimal notation, without leading zeros.
pub open spec fn decimal_digits(n: nat) -> Seq<char>
    decreases n,
{
    if n < 10 {
        seq![digit_char(n)]
    } else {
        decimal_digits(n / 10).push(digit_char(n % 10))
    }
}

/// A number that is written out in decimal notation is read back as itself.
pub proof fn lemma_decimal_round_trip(n: nat, max: nat)
    requires
        n <= max,
    ensures
        decimal_digits(n).len() > 0,
        all_digits(decimal_digits(n)),
        decimal_value(decimal_digits(n)) == n,
        parse_unsigned(decimal_digits(n), max) == Some(n),
    decreases n,
{
    let digits = decimal_digits(n);
    if n < 10 {
        assert(digits.drop_last() =~= Seq::<char>::empty());
        assert(digits.last() == digit_char(n));
        assert(decimal_value(digits.drop_last()) == 0);
    } else {
        lemma_decimal_round_trip(n / 10, n / 10);
        let front = decimal_digits(n / 10);
        assert(digits.drop_last() =~= front);
        assert(digits.last() == digit_char(n % 10));
        assert forall|i: int| 0 <= i < digits.len() implies is_digit(#[trigger] digits[i]) by {
            if i < front.len() {
                assert(digits[i] == front[i]);
            }
        }
    }
    assert(is_digit(digits[0]));
    assert(strip_plus(digits) == digits);
}

/// The decimal digit of value `d`, as text.
fn digit_text(d: u16) -> (text: &'static str)
    requires
        d < 10,
    ensures
        text@ == seq![digit_char(d as nat)],
{
    proof {
        reveal_strlit("0");
        reveal_strlit("1");
        reveal_strlit("2");
        reveal_strlit("3");
        reveal_strlit("4");
        reveal_strlit("5");
        reveal_strlit("6");
        reveal_strlit("7");
        reveal_strlit("8");
        reveal_strlit("9");
    }
    let text = if d == 0 {
        "0"
    } else if d == 1 {
        "1"
    } else if d == 2 {
        "2"
    } else if d == 3 {
        "3"
    } else if d == 4 {
        "4"
    } else if d == 5 {
        "5"
    } else if d == 6 {
        "6"
    } else if d == 7 {
        "7"
    } else if d == 8 {
        "8"
    } else {
        "9"
    };
    assert(text@ =~= seq![digit_char(d as nat)]);
    text
}

/// Appends `value` in decimal notation to `out`.
pub fn append_decimal(out: &mut String, value: u16)
    ensures
        final(out)@ == old(out)@ + decimal_digits(value as nat),
    decreases value,
{
    if value >= 10 {
        append_decimal(out, value / 10);
    }
    out.append(digit_text(value % 10));
    assert(out@ =~= old(out)@ + decimal_digits(value as nat));
}

} // verus!
