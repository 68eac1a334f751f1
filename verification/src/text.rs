//! Wide-string conversion for the host's windowing layer: UTF-16 code
//! units with a terminating zero unit.

use vstd::prelude::*;

verus! {

/// The UTF-16 encoding of one character: a single code unit for a scalar
/// below `0x10000`, and a surrogate pair for the rest.
pub open spec fn char_utf16(c: char) -> Seq<u16> {
    if (c as int) < 0x10000 {
        seq![(c as int) as u16]
    } else {
        seq![
            (0xD800 + ((c as int) - 0x10000) / 0x400) as u16,
            (0xDC00 + ((c as int) - 0x10000) % 0x400) as u16,
        ]
    }
}

/// The UTF-16 code units of a character sequence, in order, with no
/// byte-order mark.
pub open spec fn utf16_units(s: Seq<char>) -> Seq<u16>
    decreases s.len(),
{
    if s.len() == 0 {
        Seq::empty()
    } else {
        char_utf16(s[0]) + utf16_units(s.drop_first())
    }
}

/// Relies on str::encode_utf16, which yields exactly the UTF-16 code units
/// of the string's characters, surrogate pairs for supplementary ones.
#[verifier::external_body]
fn encode_utf16_units(s: &str) -> (r: Vec<u16>)
    ensures
        r@ == utf16_units(s@),
{
    s.encode_utf16().collect()
}

/// The string's UTF-16 code units followed by one zero unit: the form the
/// host's wide-character entry points expect.
pub fn wide_null(s: &str) -> (r: Vec<u16>)
    ensures
        r@ == utf16_units(s@).push(0u16),
{
    let mut v: Vec<u16> = encode_utf16_units(s);
    v.push(0);
    v
}

} // verus!
