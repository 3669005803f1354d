//! 제68항 — square unit glyphs written with a superscript or as a Roman
//! unit of their own (㎡, ㏊).
use vstd::prelude::*;

use crate::rules::korean::rule_69::{encode_unicode_cells, spec_cells};

verus! {

/// The square glyphs that rule 68 writes.
pub open spec fn spec_is_rule_68_symbol(c: char) -> bool {
    c == '\u{33a1}' || c == '\u{33ca}'
}

pub fn is_rule_68_symbol(c: char) -> (r: bool)
    ensures
        r == spec_is_rule_68_symbol(c),
{
    c == '\u{33a1}' || c == '\u{33ca}'
}

/// ㎡ is m with the superscript 2 (`0m^#b`); ㏊ is the Roman unit ha.
pub open spec fn spec_rule_68_cells(c: char) -> Option<Seq<u8>> {
    if c == '\u{33a1}' {
        Some(spec_cells("⠴⠍⠘⠼⠃"@))
    } else if c == '\u{33ca}' {
        Some(spec_cells("⠴⠓⠁⠲"@))
    } else {
        None
    }
}

/// The cells of a rule 68 glyph, if it is one.
pub fn encode_rule_68_symbol(c: char) -> (r: Option<Vec<u8>>)
    ensures
        r is Some <==> spec_rule_68_cells(c) is Some,
        r matches Some(cells) ==> cells@ == spec_rule_68_cells(c)->0,
{
    if c == '\u{33a1}' {
        proof { reveal_strlit("⠴⠍⠘⠼⠃"); }
        Some(encode_unicode_cells("⠴⠍⠘⠼⠃"))
    } else if c == '\u{33ca}' {
        proof { reveal_strlit("⠴⠓⠁⠲"); }
        Some(encode_unicode_cells("⠴⠓⠁⠲"))
    } else {
        None
    }
}

} // verus!
