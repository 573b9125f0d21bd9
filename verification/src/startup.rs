//! What the client settles before it connects: the address to go to, and
//! the prompt that asks for it.

use vstd::prelude::*;
use vstd::string::{StringExecFns, StringSliceAdditionalSpecFns};
use crate::number::{parse_bounded, parse_unsigned};
use crate::text::to_chars;

verus! {

/// The index of the last colon in `s`.
pub open spec fn last_colon(s: Seq<char>) -> Option<int>
    decreases s.len(),
{
    if s.len() == 0 {
        None
    } else if s.last() == ':' {
        Some(s.len() - 1)
    } else {
        last_colon(s.drop_last())
    }
}

/// Whether `s` ends in a port: a colon, and behind the last colon a number
/// that fits in sixteen bits.
pub open spec fn names_port(s: Seq<char>) -> bool {
    match last_colon(s) {
        Some(at) => parse_unsigned(s.skip(at + 1), 0xFFFF) is Some,
        None => false,
    }
}

/// `address` with the port of the protocol, 20002, where it names none.
pub open spec fn with_default_port(address: Seq<char>) -> Seq<char> {
    if names_port(address) {
        address
    } else {
        address + ":20002"@
    }
}

/// Trailing characters that are no colon do not move the last colon.
proof fn lemma_last_colon_take(s: Seq<char>, n: int)
    requires
        0 <= n <= s.len(),
        forall|i: int| n <= i < s.len() ==> s[i] != ':',
    ensures
        last_colon(s) == last_colon(s.take(n)),
    decreases s.len() - n,
{
    if n < s.len() {
        assert(s.drop_last().take(n) =~= s.take(n));
        lemma_last_colon_take(s.drop_last(), n);
    } else {
        assert(s.take(n) =~= s);
    }
}

/// Completes an address with the default port where it names none.
pub fn add_default_port(address: &str) -> (completed: String)
    ensures
        completed@ == with_default_port(address@),
{
    let chars = to_chars(address);
    let mut end: usize = chars.len();
    while end > 0 && chars[end - 1] != ':'
        invariant
            end <= chars.len(),
            forall|i: int| end <= i < chars.len() ==> chars@[i] != ':',
        decreases end,
    {
        end = end - 1;
    }
    proof {
        lemma_last_colon_take(chars@, end as int);
        if end > 0 {
            assert(chars@.take(end as int).last() == chars@[end - 1]);
        }
    }
    if end > 0 {
        match parse_bounded(&chars, end, 0xFFFF) {
            Some(_) => {
                return String::from_str(address);
            },
            None => {},
        }
    }
    let mut completed = String::from_str(address);
    completed.append(":20002");
    completed
}

/// `text` filled with blanks up to `width` bytes; unchanged where it is
/// that long already.
pub open spec fn padded(text: Seq<char>, length: nat, width: nat) -> Seq<char> {
    if length < width {
        text + Seq::new((width - length) as nat, |i: int| ' ')
    } else {
        text
    }
}

/// Fills `text` with blanks up to `width` bytes.
pub fn pad(text: &str, width: usize) -> (filled: String)
    ensures
        filled@ == padded(text@, text.spec_bytes().len(), width as nat),
{
    let mut filled = String::from_str(text);
    let length: usize = text.as_bytes().len();
    if length < width {
        let missing: usize = width - length;
        let mut i: usize = 0;
        assert(text@ + Seq::new(0, |j: int| ' ') =~= text@);
        while i < missing
            invariant
                i <= missing,
                filled@ == text@ + Seq::new(i as nat, |j: int| ' '),
            decreases missing - i,
        {
            proof {
                reveal_strlit(" ");
            }
            filled.append(" ");
            assert(filled@ =~= text@ + Seq::new((i + 1) as nat, |j: int| ' '));
            i = i + 1;
        }
    }
    assert(filled@ =~= padded(text@, text.spec_bytes().len(), width as nat));
    filled
}

} // verus!
