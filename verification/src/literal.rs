//! Real numbers in their decimal notation. The protocol carries sizes and
//! tristimulus readings as text; a value is kept as the text it arrived in,
//! once that text is known to denote a number.

use vstd::prelude::*;
use crate::number::{all_digits, is_digit};
use crate::text::to_chars;

verus! {

/// Whether `c` is a plus or a minus sign.
pub open spec fn is_sign(c: char) -> bool {
    c == '+' || c == '-'
}

/// `s` without a leading sign.
pub open spec fn strip_sign(s: Seq<char>) -> Seq<char> {
    if s.len() > 0 && is_sign(s[0]) {
        s.skip(1)
    } else {
        s
    }
}

/// The length of the longest prefix of `s` that consists of digits.
pub open spec fn digit_run(s: Seq<char>) -> nat
    decreases s.len(),
{
    if s.len() > 0 && is_digit(s[0]) {
        1 + digit_run(s.skip(1))
    } else {
        0
    }
}

/// Whether `c` is the lower-case letter `letter` or its upper-case form.
pub open spec fn is_letter(c: char, letter: char) -> bool {
    c == letter || c as int + 32 == letter as int
}

/// Whether `s` spells the lower-case `word`, in any mix of cases.
pub open spec fn spells(s: Seq<char>, word: Seq<char>) -> bool {
    &&& s.len() == word.len()
    &&& forall|i: int| 0 <= i < s.len() ==> is_letter(#[trigger] s[i], word[i])
}

/// Whether `s` names one of the values that are no finite number: `inf`,
/// `infinity` or `nan`, in any mix of cases.
pub open spec fn is_special(s: Seq<char>) -> bool {
    ||| spells(s, seq!['i', 'n', 'f'])
    ||| spells(s, seq!['i', 'n', 'f', 'i', 'n', 'i', 't', 'y'])
    ||| spells(s, seq!['n', 'a', 'n'])
}

/// Whether `s` is an exponent: `e` or `E`, an optional sign, and one or more
/// digits.
pub open spec fn is_exponent(s: Seq<char>) -> bool {
    &&& s.len() > 0
    &&& is_letter(s[0], 'e')
    &&& strip_sign(s.skip(1)).len() > 0
    &&& all_digits(strip_sign(s.skip(1)))
}

/// What follows the integer digits of `s`.
pub open spec fn after_integer(s: Seq<char>) -> Seq<char> {
    s.skip(digit_run(s) as int)
}

/// Whether a fraction follows the integer digits of `s`: a point and the
/// digits after it, of which there may be none.
pub open spec fn has_point(s: Seq<char>) -> bool {
    after_integer(s).len() > 0 && after_integer(s)[0] == '.'
}

/// The number of digits behind the point of `s`, 0 where it has no point.
pub open spec fn fraction_digits(s: Seq<char>) -> nat {
    if has_point(s) {
        digit_run(after_integer(s).skip(1))
    } else {
        0
    }
}

/// What follows the integer digits and the fraction of `s`.
pub open spec fn after_fraction(s: Seq<char>) -> Seq<char> {
    if has_point(s) {
        after_integer(s).skip(1 + fraction_digits(s) as int)
    } else {
        after_integer(s)
    }
}

/// Whether `s` is an unsigned decimal number: digits, optionally a point and
/// more digits, with at least one digit before or behind the point, and
/// optionally an exponent.
pub open spec fn is_decimal_number(s: Seq<char>) -> bool {
    &&& digit_run(s) + fraction_digits(s) > 0
    &&& (after_fraction(s).len() == 0 || is_exponent(after_fraction(s)))
}

/// Whether `s` denotes a real number: an optional sign, then a decimal number
/// or the name of a value that is no finite number.
pub open spec fn is_real_literal(s: Seq<char>) -> bool {
    is_special(strip_sign(s)) || is_decimal_number(strip_sign(s))
}

/// A run of digits that is followed by a digit goes on one further.
pub proof fn lemma_digit_run_step(s: Seq<char>, from: int, run: int)
    requires
        0 <= from <= from + run <= s.len(),
        forall|i: int| from <= i < from + run ==> is_digit(s[i]),
    ensures
        digit_run(s.skip(from)) == run + digit_run(s.skip(from + run)),
    decreases run,
{
    if run > 0 {
        assert(s.skip(from)[0] == s[from]);
        assert(s.skip(from).skip(1) =~= s.skip(from + 1));
        lemma_digit_run_step(s, from + 1, run - 1);
    }
}

/// A string consists of digits exactly if its run of leading digits is the
/// whole of it.
pub proof fn lemma_digit_run_all(s: Seq<char>)
    ensures
        digit_run(s) <= s.len(),
        all_digits(s) <==> digit_run(s) == s.len(),
    decreases s.len(),
{
    if s.len() > 0 {
        let rest = s.skip(1);
        lemma_digit_run_all(rest);
        if is_digit(s[0]) {
            if all_digits(rest) {
                assert forall|i: int| 0 <= i < s.len() implies is_digit(#[trigger] s[i]) by {
                    if i > 0 {
                        assert(rest[i - 1] == s[i]);
                    }
                }
            }
            if all_digits(s) {
                assert forall|i: int| 0 <= i < rest.len() implies is_digit(#[trigger] rest[i]) by {
                    assert(rest[i] == s[i + 1]);
                }
            }
        } else {
            assert(!is_digit(s[0]));
        }
    }
}

/// Whether `c` is the lower-case letter `letter` or its upper-case form.
fn char_is_letter(c: char, letter: char) -> (r: bool)
    requires
        'a' <= letter <= 'z',
    ensures
        r == is_letter(c, letter),
{
    c == letter || (c as u32) + 32 == letter as u32
}

/// The end of the run of digits that starts at `from`.
fn scan_digits(chars: &Vec<char>, from: usize) -> (to: usize)
    requires
        from <= chars.len(),
    ensures
        from <= to <= chars.len(),
        to - from == digit_run(chars@.skip(from as int)),
{
    let mut to: usize = from;
    while to < chars.len() && '0' <= chars[to] && chars[to] <= '9'
        invariant
            from <= to <= chars.len(),
            forall|i: int| from <= i < to ==> is_digit(chars@[i]),
        decreases chars.len() - to,
    {
        to = to + 1;
    }
    proof {
        lemma_digit_run_step(chars@, from as int, to - from);
        if to < chars.len() {
            assert(chars@.skip(to as int)[0] == chars@[to as int]);
        }
    }
    to
}

/// Whether what starts at `from` names a value that is no finite number.
fn special_at(chars: &Vec<char>, from: usize) -> (r: bool)
    requires
        from <= chars.len(),
    ensures
        r == is_special(chars@.skip(from as int)),
{
    let ghost s = chars@.skip(from as int);
    let n: usize = chars.len() - from;
    let ghost inf = seq!['i', 'n', 'f'];
    let ghost infinity = seq!['i', 'n', 'f', 'i', 'n', 'i', 't', 'y'];
    let ghost nan = seq!['n', 'a', 'n'];
    if n == 3 {
        assert(s[0] == chars@[from as int] && s[1] == chars@[from + 1] && s[2] == chars@[from + 2]);
        let c0 = chars[from];
        let c1 = chars[from + 1];
        let c2 = chars[from + 2];
        let is_inf = char_is_letter(c0, 'i') && char_is_letter(c1, 'n') && char_is_letter(c2, 'f');
        let is_nan = char_is_letter(c0, 'n') && char_is_letter(c1, 'a') && char_is_letter(c2, 'n');
        proof {
            assert(is_inf == spells(s, inf)) by {
                if spells(s, inf) {
                    assert(is_letter(s[0], inf[0]) && is_letter(s[1], inf[1]) && is_letter(s[2], inf[2]));
                }
            }
            assert(is_nan == spells(s, nan)) by {
                if spells(s, nan) {
                    assert(is_letter(s[0], nan[0]) && is_letter(s[1], nan[1]) && is_letter(s[2], nan[2]));
                }
            }
        }
        is_inf || is_nan
    } else if n == 8 {
        assert forall|i: int| 0 <= i < 8 implies s[i] == chars@[from + i] by {}
        let r = char_is_letter(chars[from], 'i') && char_is_letter(chars[from + 1], 'n')
            && char_is_letter(chars[from + 2], 'f') && char_is_letter(chars[from + 3], 'i')
            && char_is_letter(chars[from + 4], 'n') && char_is_letter(chars[from + 5], 'i')
            && char_is_letter(chars[from + 6], 't') && char_is_letter(chars[from + 7], 'y');
        proof {
            assert(r == spells(s, infinity)) by {
                if spells(s, infinity) {
                    assert(is_letter(s[0], infinity[0]) && is_letter(s[1], infinity[1]));
                    assert(is_letter(s[2], infinity[2]) && is_letter(s[3], infinity[3]));
                    assert(is_letter(s[4], infinity[4]) && is_letter(s[5], infinity[5]));
                    assert(is_letter(s[6], infinity[6]) && is_letter(s[7], infinity[7]));
                }
            }
        }
        r
    } else {
        false
    }
}

/// Whether what starts at `from` is an exponent.
fn exponent_at(chars: &Vec<char>, from: usize) -> (r: bool)
    requires
        from <= chars.len(),
    ensures
        r == is_exponent(chars@.skip(from as int)),
{
    let ghost s = chars@.skip(from as int);
    if from == chars.len() {
        return false;
    }
    assert(s[0] == chars@[from as int]);
    if !char_is_letter(chars[from], 'e') {
        return false;
    }
    let mut digits: usize = from + 1;
    assert(s.skip(1) =~= chars@.skip(from + 1));
    if digits < chars.len() && (chars[digits] == '+' || chars[digits] == '-') {
        assert(s.skip(1)[0] == chars@[digits as int]);
        assert(s.skip(1).skip(1) =~= chars@.skip(digits + 1));
        digits = digits + 1;
    } else if digits < chars.len() {
        assert(s.skip(1)[0] == chars@[digits as int]);
    }
    assert(strip_sign(s.skip(1)) == chars@.skip(digits as int));
    let end = scan_digits(chars, digits);
    proof {
        lemma_digit_run_all(chars@.skip(digits as int));
    }
    digits < chars.len() && end == chars.len()
}

/// Whether what starts at `from` is an unsigned decimal number.
fn decimal_number_at(chars: &Vec<char>, from: usize) -> (r: bool)
    requires
        from <= chars.len(),
    ensures
        r == is_decimal_number(chars@.skip(from as int)),
{
    let ghost s = chars@.skip(from as int);
    let point = scan_digits(chars, from);
    assert(after_integer(s) =~= chars@.skip(point as int));
    let mut rest: usize = point;
    if point < chars.len() && chars[point] == '.' {
        assert(after_integer(s)[0] == chars@[point as int]);
        assert(after_integer(s).skip(1) =~= chars@.skip(point + 1));
        rest = scan_digits(chars, point + 1);
        assert(after_fraction(s) =~= chars@.skip(rest as int));
    } else {
        if point < chars.len() {
            assert(after_integer(s)[0] == chars@[point as int]);
        }
        assert(!has_point(s));
    }
    assert(after_fraction(s) == chars@.skip(rest as int));
    let count: usize = if rest > point { (point - from) + (rest - point - 1) } else { point - from };
    assert(count == digit_run(s) + fraction_digits(s));
    if count == 0 {
        return false;
    }
    if rest == chars.len() {
        return true;
    }
    exponent_at(chars, rest)
}

/// Whether `text` denotes a real number.
pub fn is_real_text(text: &str) -> (r: bool)
    ensures
        r == is_real_literal(text@),
{
    let chars = to_chars(text);
    let from: usize = if chars.len() > 0 && (chars[0] == '+' || chars[0] == '-') { 1 } else { 0 };
    assert(strip_sign(chars@) =~= chars@.skip(from as int));
    special_at(&chars, from) || decimal_number_at(&chars, from)
}

/// A real number in decimal notation, as text.
#[derive(Debug, PartialEq, Eq)]
pub struct RealLiteral {
    text: String,
}

impl View for RealLiteral {
    type V = Seq<char>;

    closed spec fn view(&self) -> Seq<char> {
        self.text@
    }
}

impl DeepView for RealLiteral {
    type V = Seq<char>;

    open spec fn deep_view(&self) -> Seq<char> {
        self@
    }
}

impl Clone for RealLiteral {
    fn clone(&self) -> (copy: Self)
        ensures
            copy@ == self@,
    {
        proof {
            use_type_invariant(self);
        }
        RealLiteral { text: self.text.clone() }
    }
}

impl RealLiteral {
    #[verifier::type_invariant]
    spec fn denotes_a_number(self) -> bool {
        is_real_literal(self.text@)
    }

    /// Keeps `text` if it denotes a real number.
    pub fn parse(text: &str) -> (r: Option<RealLiteral>)
        ensures
            r is Some <==> is_real_literal(text@),
            r matches Some(literal) ==> literal@ == text@,
    {
        if is_real_text(text) {
            Some(RealLiteral { text: text.to_owned() })
        } else {
            None
        }
    }

    /// The number one, written `1.0`.
    pub fn one() -> (r: RealLiteral)
        ensures
            r@ == seq!['1', '.', '0'],
    {
        let text = "1.0";
        proof {
            reveal_strlit("1.0");
            let s = text@;
            assert(s =~= seq!['1', '.', '0']);
            assert(strip_sign(s) == s);
            assert(s.skip(1)[0] == '.' && s.skip(1).skip(1) =~= s.skip(2));
            assert(s.skip(2)[0] == '0' && s.skip(2).skip(1) =~= s.skip(3));
            assert(digit_run(s.skip(3)) == 0);
            assert(digit_run(s.skip(2)) == 1);
            assert(digit_run(s.skip(1)) == 0);
            assert(digit_run(s) == 1);
            assert(after_integer(s) == s.skip(1));
            assert(after_integer(s).skip(1) =~= s.skip(2));
            assert(fraction_digits(s) == 1);
            assert(after_fraction(s) =~= s.skip(3));
            assert(is_decimal_number(s));
        }
        RealLiteral { text: text.to_owned() }
    }

    /// The text of the number.
    pub fn as_str(&self) -> (text: &str)
        ensures
            text@ == self@,
            is_real_literal(text@),
    {
        proof {
            use_type_invariant(self);
        }
        self.text.as_str()
    }
}

} // verus!
