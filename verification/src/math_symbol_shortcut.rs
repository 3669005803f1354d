//! Cells of the arithmetic operators and the equals sign.
use vstd::prelude::*;

verus! {

pub open spec fn spec_math_symbol_cells(c: char) -> Option<Seq<u8>> {
    if c == '+' {
        Some(seq![34u8])
    } else if c == '\u{2212}' {
        Some(seq![20u8])
    } else if c == '\u{d7}' {
        Some(seq![33u8])
    } else if c == '\u{f7}' {
        Some(seq![12u8, 12u8])
    } else if c == '=' {
        Some(seq![18u8, 18u8])
    } else {
        None
    }
}

/// The cells of a mathematical symbol; an error for any other character.
pub fn encode_char_math_symbol_shortcut(c: char) -> (r: Result<Vec<u8>, String>)
    ensures
        r is Ok <==> spec_math_symbol_cells(c) is Some,
        r matches Ok(cells) ==> cells@ == spec_math_symbol_cells(c)->0,
        r matches Err(m) ==> m@ == "unsupported math symbol"@,
{
    if c == '+' {
        Ok(vec![34u8])
    } else if c == '\u{2212}' {
        Ok(vec![20u8])
    } else if c == '\u{d7}' {
        Ok(vec![33u8])
    } else if c == '\u{f7}' {
        Ok(vec![12u8, 12u8])
    } else if c == '=' {
        Ok(vec![18u8, 18u8])
    } else {
        Err(String::from_str("unsupported math symbol"))
    }
}

/// The operators as braille pattern characters: + ⠢, − ⠔, × ⠡, ÷ ⠌⠌, = ⠒⠒.
pub open spec fn operator_table() -> Seq<(char, Seq<char>)> {
    seq![
        ('+', seq!['⠢']),
        ('\u{2212}', seq!['⠔']),
        ('\u{d7}', seq!['⠡']),
        ('\u{f7}', seq!['⠌', '⠌']),
        ('=', seq!['⠒', '⠒']),
    ]
}

/// The braille of an operator in the first `n` rows of the table.
pub open spec fn table_operator(c: char, n: int) -> Option<Seq<u8>>
    decreases n,
{
    if n <= 0 {
        None
    } else if operator_table()[n - 1].0 == c {
        Some(operator_table()[n - 1].1.map_values(|b: char| (b as u32 - 0x2800) as u8))
    } else {
        table_operator(c, n - 1)
    }
}

/// Each operator is written with its sign of the table, and any other
/// character has none.
pub proof fn lemma_operators_follow_the_table(c: char)
    ensures
        spec_math_symbol_cells(c) == table_operator(c, 5),
{
    reveal_with_fuel(table_operator, 6);
    assert(seq!['⠢'].map_values(|b: char| (b as u32 - 0x2800) as u8) =~= seq![34u8]);
    assert(seq!['⠔'].map_values(|b: char| (b as u32 - 0x2800) as u8) =~= seq![20u8]);
    assert(seq!['⠡'].map_values(|b: char| (b as u32 - 0x2800) as u8) =~= seq![33u8]);
    assert(seq!['⠌', '⠌'].map_values(|b: char| (b as u32 - 0x2800) as u8) =~= seq![12u8, 12u8]);
    assert(seq!['⠒', '⠒'].map_values(|b: char| (b as u32 - 0x2800) as u8) =~= seq![18u8, 18u8]);
}

} // verus!
