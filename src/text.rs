//! Conversion between strings and the UTF-16 code units the passes work on.
use vstd::prelude::*;

verus! {

/// The UTF-16 encoding of one character: one unit below `0x10000`, a
/// surrogate pair above.
pub open spec fn utf16_of_char(c: char) -> Seq<u16> {
    let v = c as u32;
    if v < 0x10000 {
        seq![v as u16]
    } else {
        let w = (v - 0x10000) as u32;
        seq![(0xD800 + w / 0x400) as u16, (0xDC00 + w % 0x400) as u16]
    }
}

/// The UTF-16 encoding of a sequence of characters.
pub open spec fn utf16_of(s: Seq<char>) -> Seq<u16>
    decreases s.len(),
{
    if s.len() == 0 {
        Seq::empty()
    } else {
        utf16_of(s.drop_last()) + utf16_of_char(s.last())
    }
}

/// A leading surrogate.
pub open spec fn is_high_surrogate(u: u16) -> bool {
    0xD800 <= u < 0xDC00
}

/// A trailing surrogate.
pub open spec fn is_low_surrogate(u: u16) -> bool {
    0xDC00 <= u < 0xE000
}

/// `units` with each surrogate that is not part of a pair replaced by
/// U+FFFD: the UTF-16 encoding of what lossy decoding gives.
pub open spec fn lossy_units(units: Seq<u16>) -> Seq<u16>
    decreases units.len(),
{
    if units.len() == 0 {
        units
    } else if units.len() >= 2 && is_high_surrogate(units[0]) && is_low_surrogate(units[1]) {
        seq![units[0], units[1]] + lossy_units(units.subrange(2, units.len() as int))
    } else if is_high_surrogate(units[0]) || is_low_surrogate(units[0]) {
        seq![0xFFFDu16] + lossy_units(units.drop_first())
    } else {
        seq![units[0]] + lossy_units(units.drop_first())
    }
}

/// The string that decoding `units` as UTF-16 gives, each unpaired surrogate
/// replaced by U+FFFD.
pub uninterp spec fn decoded_utf16(units: Seq<u16>) -> Seq<char>;

/// Relies on `str::encode_utf16`: the UTF-16 encoding of the string.
#[verifier::external_body]
pub(crate) fn encode_utf16(s: &str) -> (r: Vec<u16>)
    ensures
        r@ == utf16_of(s@),
{
    s.encode_utf16().collect()
}

/// Relies on `String::from_utf16_lossy`: decodes UTF-16, replacing each
/// unpaired surrogate by U+FFFD.
#[verifier::external_body]
pub(crate) fn from_utf16_lossy(v: &Vec<u16>) -> (r: String)
    ensures
        r@ == decoded_utf16(v@),
        utf16_of(r@) == lossy_units(v@),
{
    String::from_utf16_lossy(v)
}

} // verus!
