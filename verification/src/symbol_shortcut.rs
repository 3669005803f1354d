//! Cells of punctuation marks, in Korean text and inside a Roman section.
use vstd::prelude::*;

verus! {

/// Korean punctuation (rule 49).
pub open spec fn spec_korean_symbol_cells(c: char) -> Option<Seq<u8>> {
    if c == ',' { Some(seq![16u8]) }
    else if c == '.' { Some(seq![50u8]) }
    else if c == '?' { Some(seq![38u8]) }
    else if c == '!' { Some(seq![22u8]) }
    else if c == '(' { Some(seq![38u8, 4u8]) }
    else if c == ')' { Some(seq![32u8, 52u8]) }
    else if c == '-' { Some(seq![36u8]) }
    else { None }
}

/// The Korean cells of a punctuation mark; an error for a symbol that has
/// none here.
pub fn encode_char_symbol_shortcut(c: char) -> (r: Result<Vec<u8>, String>)
    ensures
        r is Ok <==> spec_korean_symbol_cells(c) is Some,
        r matches Ok(cells) ==> cells@ == spec_korean_symbol_cells(c)->0,
{
    if c == ',' { Ok(vec![16]) }
    else if c == '.' { Ok(vec![50]) }
    else if c == '?' { Ok(vec![38]) }
    else if c == '!' { Ok(vec![22]) }
    else if c == '(' { Ok(vec![38, 4]) }
    else if c == ')' { Ok(vec![32, 52]) }
    else if c == '-' { Ok(vec![36]) }
    else { Err(String::from_str("unsupported symbol")) }
}

/// UEB punctuation inside a Roman section.
pub open spec fn spec_english_symbol_cells(c: char) -> Option<Seq<u8>> {
    if c == '(' { Some(seq![16u8, 35u8]) }
    else if c == ')' { Some(seq![16u8, 28u8]) }
    else if c == ',' { Some(seq![2u8]) }
    else if c == '.' { Some(seq![50u8]) }
    else if c == ':' { Some(seq![18u8]) }
    else if c == ';' { Some(seq![6u8]) }
    else if c == '-' { Some(seq![36u8]) }
    else if c == '?' { Some(seq![38u8]) }
    else if c == '!' { Some(seq![22u8]) }
    else if c == '\'' { Some(seq![4u8]) }
    else if c == '/' { Some(seq![56u8, 12u8]) }
    else if c == '&' { Some(seq![8u8, 47u8]) }
    else { None }
}

/// The UEB cells of a punctuation mark inside a Roman section, if it has
/// any.
pub fn encode_english_char_symbol_shortcut(c: char) -> (r: Option<Vec<u8>>)
    ensures
        r is Some <==> spec_english_symbol_cells(c) is Some,
        r matches Some(cells) ==> cells@ == spec_english_symbol_cells(c)->0,
{
    if c == '(' { Some(vec![16, 35]) }
    else if c == ')' { Some(vec![16, 28]) }
    else if c == ',' { Some(vec![2]) }
    else if c == '.' { Some(vec![50]) }
    else if c == ':' { Some(vec![18]) }
    else if c == ';' { Some(vec![6]) }
    else if c == '-' { Some(vec![36]) }
    else if c == '?' { Some(vec![38]) }
    else if c == '!' { Some(vec![22]) }
    else if c == '\'' { Some(vec![4]) }
    else if c == '/' { Some(vec![56, 12]) }
    else if c == '&' { Some(vec![8, 47]) }
    else { None }
}

/// The cells of a string of braille pattern characters.
pub open spec fn braille_cells(s: Seq<char>) -> Seq<u8> {
    s.map_values(|c: char| (c as u32 - 0x2800) as u8)
}

/// The UEB punctuation a Roman section uses, as pairs of a print mark and
/// its braille pattern characters.
pub open spec fn ueb_punctuation() -> Seq<(char, Seq<char>)> {
    seq![
        ('(', seq!['⠐', '⠣']), (')', seq!['⠐', '⠜']), (',', seq!['⠂']), ('.', seq!['⠲']),
        (':', seq!['⠒']), (';', seq!['⠆']), ('-', seq!['⠤']), ('?', seq!['⠦']),
        ('!', seq!['⠖']), ('\'', seq!['⠄']), ('/', seq!['⠸', '⠌']), ('&', seq!['⠈', '⠯']),
    ]
}

/// The braille of a mark in the first `n` rows of the UEB punctuation.
pub open spec fn ueb_mark(c: char, n: int) -> Option<Seq<u8>>
    decreases n,
{
    if n <= 0 {
        None
    } else if ueb_punctuation()[n - 1].0 == c {
        Some(braille_cells(ueb_punctuation()[n - 1].1))
    } else {
        ueb_mark(c, n - 1)
    }
}

/// Inside a Roman section each mark is written with its UEB sign, and a
/// mark outside the UEB punctuation has none; in particular the apostrophe
/// ⠄ is not the comma ⠂.
pub proof fn lemma_english_marks_follow_ueb(c: char)
    ensures
        spec_english_symbol_cells(c) == ueb_mark(c, 12),
        spec_english_symbol_cells('\'') != spec_english_symbol_cells(','),
{
    reveal_with_fuel(ueb_mark, 13);
    assert(braille_cells(seq!['⠐', '⠣']) =~= seq![16u8, 35u8]);
    assert(braille_cells(seq!['⠐', '⠜']) =~= seq![16u8, 28u8]);
    assert(braille_cells(seq!['⠂']) =~= seq![2u8]);
    assert(braille_cells(seq!['⠲']) =~= seq![50u8]);
    assert(braille_cells(seq!['⠒']) =~= seq![18u8]);
    assert(braille_cells(seq!['⠆']) =~= seq![6u8]);
    assert(braille_cells(seq!['⠤']) =~= seq![36u8]);
    assert(braille_cells(seq!['⠦']) =~= seq![38u8]);
    assert(braille_cells(seq!['⠖']) =~= seq![22u8]);
    assert(braille_cells(seq!['⠄']) =~= seq![4u8]);
    assert(braille_cells(seq!['⠸', '⠌']) =~= seq![56u8, 12u8]);
    assert(braille_cells(seq!['⠈', '⠯']) =~= seq![8u8, 47u8]);
    assert(spec_english_symbol_cells('\'')->0[0] != spec_english_symbol_cells(',')->0[0]);
}

/// Korean punctuation as pairs of a print mark and its braille pattern
/// characters (rule 49).
pub open spec fn korean_punctuation() -> Seq<(char, Seq<char>)> {
    seq![
        (',', seq!['⠐']), ('.', seq!['⠲']), ('?', seq!['⠦']), ('!', seq!['⠖']),
        ('(', seq!['⠦', '⠄']), (')', seq!['⠠', '⠴']), ('-', seq!['⠤']),
    ]
}

/// The braille of a mark in the first `n` rows of the Korean punctuation.
pub open spec fn korean_mark(c: char, n: int) -> Option<Seq<u8>>
    decreases n,
{
    if n <= 0 {
        None
    } else if korean_punctuation()[n - 1].0 == c {
        Some(braille_cells(korean_punctuation()[n - 1].1))
    } else {
        korean_mark(c, n - 1)
    }
}

/// Each Korean punctuation mark is written with its sign of the table, and
/// any other character has none.
pub proof fn lemma_korean_marks_follow_the_table(c: char)
    ensures
        spec_korean_symbol_cells(c) == korean_mark(c, 7),
{
    reveal_with_fuel(korean_mark, 8);
    assert(braille_cells(seq!['⠐']) =~= seq![16u8]);
    assert(braille_cells(seq!['⠲']) =~= seq![50u8]);
    assert(braille_cells(seq!['⠦']) =~= seq![38u8]);
    assert(braille_cells(seq!['⠖']) =~= seq![22u8]);
    assert(braille_cells(seq!['⠦', '⠄']) =~= seq![38u8, 4u8]);
    assert(braille_cells(seq!['⠠', '⠴']) =~= seq![32u8, 52u8]);
    assert(braille_cells(seq!['⠤']) =~= seq![36u8]);
}

} // verus!
