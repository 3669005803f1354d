//! Cells as Unicode braille pattern characters (U+2800..U+283F).
use vstd::prelude::*;

verus! {

pub open spec fn is_braille_char(c: char) -> bool {
    0x2800 <= c as u32 && c as u32 <= 0x28ff
}

/// The cell of a braille pattern character.
pub open spec fn spec_decode_unicode(c: char) -> u8 {
    (c as u32 - 0x2800) as u8
}

/// The cell (dot pattern) that a braille pattern character shows.
pub fn decode_unicode(c: char) -> (r: u8)
    requires
        is_braille_char(c),
    ensures
        r == spec_decode_unicode(c),
        r as u32 + 0x2800 == c as u32,
{
    (c as u32 - 0x2800) as u8
}

} // verus!
