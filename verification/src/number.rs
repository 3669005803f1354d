//! Digits and numbers.
use vstd::prelude::*;

use crate::utils::spec_is_ascii_digit;

verus! {

/// Number sign ⠼.
pub const NUMBER_SIGN: u8 = 60;

/// The cell of an ASCII digit (the letters a–j of the upper dots).
pub open spec fn spec_digit_cell(c: char) -> u8 {
    if c == '1' { 1 }
    else if c == '2' { 3 }
    else if c == '3' { 9 }
    else if c == '4' { 25 }
    else if c == '5' { 17 }
    else if c == '6' { 11 }
    else if c == '7' { 27 }
    else if c == '8' { 19 }
    else if c == '9' { 10 }
    else { 26 }
}

/// The cell of a digit; an error for any other character.
pub fn encode_number(c: char) -> (r: Result<u8, String>)
    ensures
        r is Ok <==> spec_is_ascii_digit(c),
        r matches Ok(cell) ==> cell == spec_digit_cell(c),
        r matches Err(m) ==> m@ == "not a digit"@,
{
    match c {
        '1' => Ok(1),
        '2' => Ok(3),
        '3' => Ok(9),
        '4' => Ok(25),
        '5' => Ok(17),
        '6' => Ok(11),
        '7' => Ok(27),
        '8' => Ok(19),
        '9' => Ok(10),
        '0' => Ok(26),
        _ => Err(String::from_str("not a digit")),
    }
}

/// The cell of a character of a written number: a digit, the comma between
/// digit groups (⠂, rule 41) or the decimal point (⠲).
pub open spec fn spec_numeric_cell(c: char) -> Option<u8> {
    if spec_is_ascii_digit(c) {
        Some(spec_digit_cell(c))
    } else if c == ',' {
        Some(2u8)
    } else if c == '.' {
        Some(50u8)
    } else {
        None
    }
}

/// The cells of the number characters from position `i` on.
pub open spec fn spec_numeric_cells(s: Seq<char>, i: int) -> Option<Seq<u8>>
    decreases s.len() - i,
{
    if i < 0 || i >= s.len() {
        Some(Seq::empty())
    } else {
        match (spec_numeric_cell(s[i]), spec_numeric_cells(s, i + 1)) {
            (Some(cell), Some(rest)) => Some(seq![cell] + rest),
            _ => None,
        }
    }
}

/// A written number: the number sign, then its digits, commas and decimal
/// points.
pub open spec fn spec_encode_numeric(s: Seq<char>) -> Option<Seq<u8>> {
    match spec_numeric_cells(s, 0) {
        Some(cells) => Some(seq![NUMBER_SIGN] + cells),
        None => None,
    }
}

/// Encodes a written number (rule 40); an error for a character that is not
/// a digit, a comma or a full stop.
pub fn encode_numeric(s: &[char]) -> (r: Result<Vec<u8>, String>)
    ensures
        r is Ok <==> spec_encode_numeric(s@) is Some,
        r matches Ok(cells) ==> cells@ == spec_encode_numeric(s@)->0,
        r matches Err(m) ==> m@ == "not a digit"@,
{
    let mut out: Vec<u8> = vec![NUMBER_SIGN];
    let mut i: usize = 0;
    while i < s.len()
        invariant
            i <= s@.len(),
            spec_encode_numeric(s@) == match spec_numeric_cells(s@, i as int) {
                Some(rest) => Some(out@ + rest),
                None => None::<Seq<u8>>,
            },
        decreases s@.len() - i,
    {
        let c = s[i];
        let cell = if c == ',' {
            2u8
        } else if c == '.' {
            50u8
        } else {
            match encode_number(c) {
                Ok(cell) => cell,
                Err(e) => return Err(e),
            }
        };
        proof {
            match spec_numeric_cells(s@, i + 1) {
                Some(rest) => {
                    assert(out@ + (seq![cell] + rest) == out@.push(cell) + rest);
                },
                None => {},
            }
        }
        out.push(cell);
        i += 1;
    }
    Ok(out)
}

/// A digit is written with the sign of a letter a to j: 1 as a, 2 as b,
/// and so on, 0 as j (rule 40).
pub proof fn lemma_digits_are_letters_a_to_j(d: char)
    requires
        spec_is_ascii_digit(d),
    ensures
        spec_digit_cell(d) == crate::rules::english_ueb::spec_letter_cell(
            if d == '0' { 'j' } else { (d as u32 - '1' as u32 + 'a' as u32) as char },
        ),
{
}

} // verus!
