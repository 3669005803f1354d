//! Unified English Braille for the Roman words that Korean text quotes:
//! alphabet signs with capital indicators, the contractions that may stand
//! inside a word (rule 37 keeps the groupsigns and suppresses whole-word
//! contractions), the one-cell wordsigns of a word standing alone, and the
//! shortforms that ask for the grade 1 indicator.
use vstd::prelude::*;

use crate::utils::{is_ascii_alphabetic, is_ascii_lowercase, is_ascii_uppercase, spec_is_ascii_alphabetic, spec_is_ascii_lowercase, spec_is_ascii_uppercase};

verus! {

/// Capital letter indicator ⠠.
pub const CAPITAL: u8 = 32;

/// Grade 1 indicator ⠰.
pub const GRADE1: u8 = 48;

/// The alphabet sign of an ASCII letter, either case.
pub open spec fn spec_letter_cell(c: char) -> u8 {
    let l = if spec_is_ascii_uppercase(c) { (c as u32 + 32) as char } else { c };
    if l == 'a' { 1 }
    else if l == 'b' { 3 }
    else if l == 'c' { 9 }
    else if l == 'd' { 25 }
    else if l == 'e' { 17 }
    else if l == 'f' { 11 }
    else if l == 'g' { 27 }
    else if l == 'h' { 19 }
    else if l == 'i' { 10 }
    else if l == 'j' { 26 }
    else if l == 'k' { 5 }
    else if l == 'l' { 7 }
    else if l == 'm' { 13 }
    else if l == 'n' { 29 }
    else if l == 'o' { 21 }
    else if l == 'p' { 15 }
    else if l == 'q' { 31 }
    else if l == 'r' { 23 }
    else if l == 's' { 14 }
    else if l == 't' { 30 }
    else if l == 'u' { 37 }
    else if l == 'v' { 39 }
    else if l == 'w' { 58 }
    else if l == 'x' { 45 }
    else if l == 'y' { 61 }
    else if l == 'z' { 53 }
    else { 0 }
}

/// The UEB alphabet, a to z, as braille pattern characters (U+2800 plus the
/// dot pattern).
pub open spec fn ueb_alphabet() -> Seq<char> {
    seq![
        '⠁', '⠃', '⠉', '⠙', '⠑', '⠋', '⠛', '⠓', '⠊', '⠚', '⠅', '⠇', '⠍',
        '⠝', '⠕', '⠏', '⠟', '⠗', '⠎', '⠞', '⠥', '⠧', '⠺', '⠭', '⠽', '⠵',
    ]
}

/// The position of an ASCII letter in the alphabet, either case.
pub open spec fn alphabet_index(c: char) -> int {
    if spec_is_ascii_uppercase(c) {
        c as u32 - 'A' as u32
    } else {
        c as u32 - 'a' as u32
    }
}

/// Every ASCII letter, in either case, is written with its sign of the UEB
/// alphabet.
pub proof fn lemma_letter_cells_follow_the_alphabet(c: char)
    requires
        spec_is_ascii_alphabetic(c),
    ensures
        0 <= alphabet_index(c) < 26,
        spec_letter_cell(c) as u32 + 0x2800 == ueb_alphabet()[alphabet_index(c)] as u32,
{
}

/// Two letters get the same sign exactly when they are the same letter,
/// whatever their case.
pub proof fn lemma_letter_cells_distinct(a: char, b: char)
    requires
        spec_is_ascii_alphabetic(a),
        spec_is_ascii_alphabetic(b),
    ensures
        spec_letter_cell(a) == spec_letter_cell(b) <==> alphabet_index(a) == alphabet_index(b),
{
}

/// The alphabet sign of a letter.
pub fn letter_cell(c: char) -> (r: u8)
    ensures
        r == spec_letter_cell(c),
{
    let l = if is_ascii_uppercase(c) {
        match crate::text::char_from_u32(c as u32 + 32) {
            Some(l) => l,
            None => c,
        }
    } else {
        c
    };
    match l {
        'a' => 1,
        'b' => 3,
        'c' => 9,
        'd' => 25,
        'e' => 17,
        'f' => 11,
        'g' => 27,
        'h' => 19,
        'i' => 10,
        'j' => 26,
        'k' => 5,
        'l' => 7,
        'm' => 13,
        'n' => 29,
        'o' => 21,
        'p' => 15,
        'q' => 31,
        'r' => 23,
        's' => 14,
        't' => 30,
        'u' => 37,
        'v' => 39,
        'w' => 58,
        'x' => 45,
        'y' => 61,
        'z' => 53,
        _ => 0,
    }
}

/// Whether the characters of `s` are those of `lit`.
pub fn chars_eq_str(s: &[char], lit: &str) -> (r: bool)
    ensures
        r == (s@ == lit@),
{
    let n = lit.unicode_len();
    if s.len() != n {
        return false;
    }
    let mut i: usize = 0;
    while i < n
        invariant
            n == lit@.len() == s@.len(),
            i <= n,
            forall|j: int| 0 <= j < i ==> s@[j] == lit@[j],
        decreases n - i,
    {
        if s[i] != lit.get_char(i) {
            return false;
        }
        i += 1;
    }
    assert(s@ =~= lit@);
    true
}

/// `c` is the lower-case letter `l` in either case.
pub open spec fn spec_eq_ignore_case(c: char, l: char) -> bool {
    c == l || (spec_is_ascii_uppercase(c) && c as u32 + 32 == l as u32)
}

/// `s` spells the lower-case word `lit` in any mix of cases.
pub open spec fn spec_eq_str_ignore_case(s: Seq<char>, lit: Seq<char>) -> bool {
    s.len() == lit.len() && forall|j: int| 0 <= j < s.len() ==> spec_eq_ignore_case(#[trigger] s[j], lit[j])
}

/// Whether `s` spells the lower-case word `lit` in any mix of cases.
pub fn chars_eq_str_ignore_case(s: &[char], lit: &str) -> (r: bool)
    ensures
        r == spec_eq_str_ignore_case(s@, lit@),
{
    let n = lit.unicode_len();
    if s.len() != n {
        return false;
    }
    let mut i: usize = 0;
    while i < n
        invariant
            n == lit@.len() == s@.len(),
            i <= n,
            forall|j: int| 0 <= j < i ==> spec_eq_ignore_case(#[trigger] s@[j], lit@[j]),
        decreases n - i,
    {
        let c = s[i];
        let l = lit.get_char(i);
        if !(c == l || (is_ascii_uppercase(c) && c as u32 + 32 == l as u32)) {
            return false;
        }
        i += 1;
    }
    true
}

/// The one-cell wordsign of a lower-case word standing alone: the
/// alphabetic wordsigns, the strong wordsigns and contractions, and the
/// lower wordsigns.
pub open spec fn spec_wordsign(w: Seq<char>) -> Option<u8> {
    if w == "but"@ { Some(3u8) }
    else if w == "can"@ { Some(9u8) }
    else if w == "do"@ { Some(25u8) }
    else if w == "every"@ { Some(17u8) }
    else if w == "from"@ { Some(11u8) }
    else if w == "go"@ { Some(27u8) }
    else if w == "have"@ { Some(19u8) }
    else if w == "just"@ { Some(26u8) }
    else if w == "knowledge"@ { Some(5u8) }
    else if w == "like"@ { Some(7u8) }
    else if w == "more"@ { Some(13u8) }
    else if w == "not"@ { Some(29u8) }
    else if w == "people"@ { Some(15u8) }
    else if w == "quite"@ { Some(31u8) }
    else if w == "rather"@ { Some(23u8) }
    else if w == "so"@ { Some(14u8) }
    else if w == "that"@ { Some(30u8) }
    else if w == "us"@ { Some(37u8) }
    else if w == "very"@ { Some(39u8) }
    else if w == "will"@ { Some(58u8) }
    else if w == "it"@ { Some(45u8) }
    else if w == "you"@ { Some(61u8) }
    else if w == "as"@ { Some(53u8) }
    else if w == "and"@ { Some(47u8) }
    else if w == "for"@ { Some(63u8) }
    else if w == "of"@ { Some(55u8) }
    else if w == "the"@ { Some(46u8) }
    else if w == "with"@ { Some(62u8) }
    else if w == "child"@ { Some(33u8) }
    else if w == "shall"@ { Some(41u8) }
    else if w == "this"@ { Some(57u8) }
    else if w == "which"@ { Some(49u8) }
    else if w == "out"@ { Some(51u8) }
    else if w == "still"@ { Some(12u8) }
    else if w == "be"@ { Some(6u8) }
    else if w == "enough"@ { Some(34u8) }
    else if w == "were"@ { Some(54u8) }
    else if w == "his"@ { Some(38u8) }
    else if w == "in"@ { Some(20u8) }
    else if w == "was"@ { Some(52u8) }
    else { None }
}

/// The one-cell wordsigns of UEB, as a word and its braille pattern
/// character.
pub open spec fn wordsign_table() -> Seq<(Seq<char>, char)> {
    seq![
        (seq!['b', 'u', 't'], '⠃'),
        (seq!['c', 'a', 'n'], '⠉'),
        (seq!['d', 'o'], '⠙'),
        (seq!['e', 'v', 'e', 'r', 'y'], '⠑'),
        (seq!['f', 'r', 'o', 'm'], '⠋'),
        (seq!['g', 'o'], '⠛'),
        (seq!['h', 'a', 'v', 'e'], '⠓'),
        (seq!['j', 'u', 's', 't'], '⠚'),
        (seq!['k', 'n', 'o', 'w', 'l', 'e', 'd', 'g', 'e'], '⠅'),
        (seq!['l', 'i', 'k', 'e'], '⠇'),
        (seq!['m', 'o', 'r', 'e'], '⠍'),
        (seq!['n', 'o', 't'], '⠝'),
        (seq!['p', 'e', 'o', 'p', 'l', 'e'], '⠏'),
        (seq!['q', 'u', 'i', 't', 'e'], '⠟'),
        (seq!['r', 'a', 't', 'h', 'e', 'r'], '⠗'),
        (seq!['s', 'o'], '⠎'),
        (seq!['t', 'h', 'a', 't'], '⠞'),
        (seq!['u', 's'], '⠥'),
        (seq!['v', 'e', 'r', 'y'], '⠧'),
        (seq!['w', 'i', 'l', 'l'], '⠺'),
        (seq!['i', 't'], '⠭'),
        (seq!['y', 'o', 'u'], '⠽'),
        (seq!['a', 's'], '⠵'),
        (seq!['a', 'n', 'd'], '⠯'),
        (seq!['f', 'o', 'r'], '⠿'),
        (seq!['o', 'f'], '⠷'),
        (seq!['t', 'h', 'e'], '⠮'),
        (seq!['w', 'i', 't', 'h'], '⠾'),
        (seq!['c', 'h', 'i', 'l', 'd'], '⠡'),
        (seq!['s', 'h', 'a', 'l', 'l'], '⠩'),
        (seq!['t', 'h', 'i', 's'], '⠹'),
        (seq!['w', 'h', 'i', 'c', 'h'], '⠱'),
        (seq!['o', 'u', 't'], '⠳'),
        (seq!['s', 't', 'i', 'l', 'l'], '⠌'),
        (seq!['b', 'e'], '⠆'),
        (seq!['e', 'n', 'o', 'u', 'g', 'h'], '⠢'),
        (seq!['w', 'e', 'r', 'e'], '⠶'),
        (seq!['h', 'i', 's'], '⠦'),
        (seq!['i', 'n'], '⠔'),
        (seq!['w', 'a', 's'], '⠴'),
    ]
}

/// The wordsign of a word in the first `n` rows of the table, as a cell.
pub open spec fn table_wordsign(w: Seq<char>, n: int) -> Option<u8>
    decreases n,
{
    if n <= 0 {
        None
    } else if wordsign_table()[n - 1].0 == w {
        Some((wordsign_table()[n - 1].1 as u32 - 0x2800) as u8)
    } else {
        table_wordsign(w, n - 1)
    }
}

/// A word standing alone has the UEB wordsign of the table, and a word
/// outside the table has none.
pub proof fn lemma_wordsigns_follow_the_table(w: Seq<char>)
    ensures
        spec_wordsign(w) == table_wordsign(w, 40),
{
    reveal_strlit("but");
    assert("but"@ =~= seq!['b', 'u', 't']);
    reveal_strlit("can");
    assert("can"@ =~= seq!['c', 'a', 'n']);
    reveal_strlit("do");
    assert("do"@ =~= seq!['d', 'o']);
    reveal_strlit("every");
    assert("every"@ =~= seq!['e', 'v', 'e', 'r', 'y']);
    reveal_strlit("from");
    assert("from"@ =~= seq!['f', 'r', 'o', 'm']);
    reveal_strlit("go");
    assert("go"@ =~= seq!['g', 'o']);
    reveal_strlit("have");
    assert("have"@ =~= seq!['h', 'a', 'v', 'e']);
    reveal_strlit("just");
    assert("just"@ =~= seq!['j', 'u', 's', 't']);
    reveal_strlit("knowledge");
    assert("knowledge"@ =~= seq!['k', 'n', 'o', 'w', 'l', 'e', 'd', 'g', 'e']);
    reveal_strlit("like");
    assert("like"@ =~= seq!['l', 'i', 'k', 'e']);
    reveal_strlit("more");
    assert("more"@ =~= seq!['m', 'o', 'r', 'e']);
    reveal_strlit("not");
    assert("not"@ =~= seq!['n', 'o', 't']);
    reveal_strlit("people");
    assert("people"@ =~= seq!['p', 'e', 'o', 'p', 'l', 'e']);
    reveal_strlit("quite");
    assert("quite"@ =~= seq!['q', 'u', 'i', 't', 'e']);
    reveal_strlit("rather");
    assert("rather"@ =~= seq!['r', 'a', 't', 'h', 'e', 'r']);
    reveal_strlit("so");
    assert("so"@ =~= seq!['s', 'o']);
    reveal_strlit("that");
    assert("that"@ =~= seq!['t', 'h', 'a', 't']);
    reveal_strlit("us");
    assert("us"@ =~= seq!['u', 's']);
    reveal_strlit("very");
    assert("very"@ =~= seq!['v', 'e', 'r', 'y']);
    reveal_strlit("will");
    assert("will"@ =~= seq!['w', 'i', 'l', 'l']);
    reveal_strlit("it");
    assert("it"@ =~= seq!['i', 't']);
    reveal_strlit("you");
    assert("you"@ =~= seq!['y', 'o', 'u']);
    reveal_strlit("as");
    assert("as"@ =~= seq!['a', 's']);
    reveal_strlit("and");
    assert("and"@ =~= seq!['a', 'n', 'd']);
    reveal_strlit("for");
    assert("for"@ =~= seq!['f', 'o', 'r']);
    reveal_strlit("of");
    assert("of"@ =~= seq!['o', 'f']);
    reveal_strlit("the");
    assert("the"@ =~= seq!['t', 'h', 'e']);
    reveal_strlit("with");
    assert("with"@ =~= seq!['w', 'i', 't', 'h']);
    reveal_strlit("child");
    assert("child"@ =~= seq!['c', 'h', 'i', 'l', 'd']);
    reveal_strlit("shall");
    assert("shall"@ =~= seq!['s', 'h', 'a', 'l', 'l']);
    reveal_strlit("this");
    assert("this"@ =~= seq!['t', 'h', 'i', 's']);
    reveal_strlit("which");
    assert("which"@ =~= seq!['w', 'h', 'i', 'c', 'h']);
    reveal_strlit("out");
    assert("out"@ =~= seq!['o', 'u', 't']);
    reveal_strlit("still");
    assert("still"@ =~= seq!['s', 't', 'i', 'l', 'l']);
    reveal_strlit("be");
    assert("be"@ =~= seq!['b', 'e']);
    reveal_strlit("enough");
    assert("enough"@ =~= seq!['e', 'n', 'o', 'u', 'g', 'h']);
    reveal_strlit("were");
    assert("were"@ =~= seq!['w', 'e', 'r', 'e']);
    reveal_strlit("his");
    assert("his"@ =~= seq!['h', 'i', 's']);
    reveal_strlit("in");
    assert("in"@ =~= seq!['i', 'n']);
    reveal_strlit("was");
    assert("was"@ =~= seq!['w', 'a', 's']);
    reveal_with_fuel(table_wordsign, 41);
}

/// The one-cell wordsign of a lower-case word standing alone, if it has one.
pub fn wordsign(w: &[char]) -> (r: Option<u8>)
    ensures
        r == spec_wordsign(w@),
{
    if chars_eq_str(w, "but") { Some(3) }
    else if chars_eq_str(w, "can") { Some(9) }
    else if chars_eq_str(w, "do") { Some(25) }
    else if chars_eq_str(w, "every") { Some(17) }
    else if chars_eq_str(w, "from") { Some(11) }
    else if chars_eq_str(w, "go") { Some(27) }
    else if chars_eq_str(w, "have") { Some(19) }
    else if chars_eq_str(w, "just") { Some(26) }
    else if chars_eq_str(w, "knowledge") { Some(5) }
    else if chars_eq_str(w, "like") { Some(7) }
    else if chars_eq_str(w, "more") { Some(13) }
    else if chars_eq_str(w, "not") { Some(29) }
    else if chars_eq_str(w, "people") { Some(15) }
    else if chars_eq_str(w, "quite") { Some(31) }
    else if chars_eq_str(w, "rather") { Some(23) }
    else if chars_eq_str(w, "so") { Some(14) }
    else if chars_eq_str(w, "that") { Some(30) }
    else if chars_eq_str(w, "us") { Some(37) }
    else if chars_eq_str(w, "very") { Some(39) }
    else if chars_eq_str(w, "will") { Some(58) }
    else if chars_eq_str(w, "it") { Some(45) }
    else if chars_eq_str(w, "you") { Some(61) }
    else if chars_eq_str(w, "as") { Some(53) }
    else if chars_eq_str(w, "and") { Some(47) }
    else if chars_eq_str(w, "for") { Some(63) }
    else if chars_eq_str(w, "of") { Some(55) }
    else if chars_eq_str(w, "the") { Some(46) }
    else if chars_eq_str(w, "with") { Some(62) }
    else if chars_eq_str(w, "child") { Some(33) }
    else if chars_eq_str(w, "shall") { Some(41) }
    else if chars_eq_str(w, "this") { Some(57) }
    else if chars_eq_str(w, "which") { Some(49) }
    else if chars_eq_str(w, "out") { Some(51) }
    else if chars_eq_str(w, "still") { Some(12) }
    else if chars_eq_str(w, "be") { Some(6) }
    else if chars_eq_str(w, "enough") { Some(34) }
    else if chars_eq_str(w, "were") { Some(54) }
    else if chars_eq_str(w, "his") { Some(38) }
    else if chars_eq_str(w, "in") { Some(20) }
    else if chars_eq_str(w, "was") { Some(52) }
    else { None }
}

} // verus!

verus! {

/// UEB shortforms written with letters only (`cd` could, `alt`
/// altogether, `nec` necessary, ...), which a letters-sequence of the same
/// spelling must not be read as.
pub open spec fn spec_is_letter_shortform(w: Seq<char>) -> bool {
    ||| spec_eq_str_ignore_case(w, "ab"@)
    ||| spec_eq_str_ignore_case(w, "abv"@)
    ||| spec_eq_str_ignore_case(w, "acr"@)
    ||| spec_eq_str_ignore_case(w, "af"@)
    ||| spec_eq_str_ignore_case(w, "afn"@)
    ||| spec_eq_str_ignore_case(w, "afw"@)
    ||| spec_eq_str_ignore_case(w, "ag"@)
    ||| spec_eq_str_ignore_case(w, "agst"@)
    ||| spec_eq_str_ignore_case(w, "al"@)
    ||| spec_eq_str_ignore_case(w, "alm"@)
    ||| spec_eq_str_ignore_case(w, "alr"@)
    ||| spec_eq_str_ignore_case(w, "alt"@)
    ||| spec_eq_str_ignore_case(w, "alth"@)
    ||| spec_eq_str_ignore_case(w, "alw"@)
    ||| spec_eq_str_ignore_case(w, "bec"@)
    ||| spec_eq_str_ignore_case(w, "bef"@)
    ||| spec_eq_str_ignore_case(w, "beh"@)
    ||| spec_eq_str_ignore_case(w, "bel"@)
    ||| spec_eq_str_ignore_case(w, "ben"@)
    ||| spec_eq_str_ignore_case(w, "bes"@)
    ||| spec_eq_str_ignore_case(w, "bet"@)
    ||| spec_eq_str_ignore_case(w, "bey"@)
    ||| spec_eq_str_ignore_case(w, "bl"@)
    ||| spec_eq_str_ignore_case(w, "brl"@)
    ||| spec_eq_str_ignore_case(w, "cd"@)
    ||| spec_eq_str_ignore_case(w, "chn"@)
    ||| spec_eq_str_ignore_case(w, "concv"@)
    ||| spec_eq_str_ignore_case(w, "concvg"@)
    ||| spec_eq_str_ignore_case(w, "dcl"@)
    ||| spec_eq_str_ignore_case(w, "dclg"@)
    ||| spec_eq_str_ignore_case(w, "dcv"@)
    ||| spec_eq_str_ignore_case(w, "dcvg"@)
    ||| spec_eq_str_ignore_case(w, "ei"@)
    ||| spec_eq_str_ignore_case(w, "fr"@)
    ||| spec_eq_str_ignore_case(w, "fst"@)
    ||| spec_eq_str_ignore_case(w, "gd"@)
    ||| spec_eq_str_ignore_case(w, "grt"@)
    ||| spec_eq_str_ignore_case(w, "herf"@)
    ||| spec_eq_str_ignore_case(w, "hm"@)
    ||| spec_eq_str_ignore_case(w, "hmf"@)
    ||| spec_eq_str_ignore_case(w, "imm"@)
    ||| spec_eq_str_ignore_case(w, "ll"@)
    ||| spec_eq_str_ignore_case(w, "lr"@)
    ||| spec_eq_str_ignore_case(w, "mch"@)
    ||| spec_eq_str_ignore_case(w, "myf"@)
    ||| spec_eq_str_ignore_case(w, "mst"@)
    ||| spec_eq_str_ignore_case(w, "nec"@)
    ||| spec_eq_str_ignore_case(w, "nei"@)
    ||| spec_eq_str_ignore_case(w, "onef"@)
    ||| spec_eq_str_ignore_case(w, "ourvs"@)
    ||| spec_eq_str_ignore_case(w, "pcv"@)
    ||| spec_eq_str_ignore_case(w, "pcvg"@)
    ||| spec_eq_str_ignore_case(w, "pd"@)
    ||| spec_eq_str_ignore_case(w, "perh"@)
    ||| spec_eq_str_ignore_case(w, "qk"@)
    ||| spec_eq_str_ignore_case(w, "rcv"@)
    ||| spec_eq_str_ignore_case(w, "rcvg"@)
    ||| spec_eq_str_ignore_case(w, "rjc"@)
    ||| spec_eq_str_ignore_case(w, "rjcg"@)
    ||| spec_eq_str_ignore_case(w, "sch"@)
    ||| spec_eq_str_ignore_case(w, "sd"@)
    ||| spec_eq_str_ignore_case(w, "shd"@)
    ||| spec_eq_str_ignore_case(w, "td"@)
    ||| spec_eq_str_ignore_case(w, "tgr"@)
    ||| spec_eq_str_ignore_case(w, "themvs"@)
    ||| spec_eq_str_ignore_case(w, "thyf"@)
    ||| spec_eq_str_ignore_case(w, "tm"@)
    ||| spec_eq_str_ignore_case(w, "tn"@)
    ||| spec_eq_str_ignore_case(w, "wd"@)
    ||| spec_eq_str_ignore_case(w, "xf"@)
    ||| spec_eq_str_ignore_case(w, "xs"@)
    ||| spec_eq_str_ignore_case(w, "yr"@)
    ||| spec_eq_str_ignore_case(w, "yrf"@)
    ||| spec_eq_str_ignore_case(w, "yrvs"@)
}

/// Whether a letters-sequence spells a letters-only shortform, so that it
/// takes the grade 1 indicator (UEB 5.7.2, 10.9.7).
pub fn requires_grade1_indicator(w: &[char]) -> (r: bool)
    ensures
        r == spec_is_letter_shortform(w@),
{
    chars_eq_str_ignore_case(w, "ab") ||
    chars_eq_str_ignore_case(w, "abv") ||
    chars_eq_str_ignore_case(w, "acr") ||
    chars_eq_str_ignore_case(w, "af") ||
    chars_eq_str_ignore_case(w, "afn") ||
    chars_eq_str_ignore_case(w, "afw") ||
    chars_eq_str_ignore_case(w, "ag") ||
    chars_eq_str_ignore_case(w, "agst") ||
    chars_eq_str_ignore_case(w, "al") ||
    chars_eq_str_ignore_case(w, "alm") ||
    chars_eq_str_ignore_case(w, "alr") ||
    chars_eq_str_ignore_case(w, "alt") ||
    chars_eq_str_ignore_case(w, "alth") ||
    chars_eq_str_ignore_case(w, "alw") ||
    chars_eq_str_ignore_case(w, "bec") ||
    chars_eq_str_ignore_case(w, "bef") ||
    chars_eq_str_ignore_case(w, "beh") ||
    chars_eq_str_ignore_case(w, "bel") ||
    chars_eq_str_ignore_case(w, "ben") ||
    chars_eq_str_ignore_case(w, "bes") ||
    chars_eq_str_ignore_case(w, "bet") ||
    chars_eq_str_ignore_case(w, "bey") ||
    chars_eq_str_ignore_case(w, "bl") ||
    chars_eq_str_ignore_case(w, "brl") ||
    chars_eq_str_ignore_case(w, "cd") ||
    chars_eq_str_ignore_case(w, "chn") ||
    chars_eq_str_ignore_case(w, "concv") ||
    chars_eq_str_ignore_case(w, "concvg") ||
    chars_eq_str_ignore_case(w, "dcl") ||
    chars_eq_str_ignore_case(w, "dclg") ||
    chars_eq_str_ignore_case(w, "dcv") ||
    chars_eq_str_ignore_case(w, "dcvg") ||
    chars_eq_str_ignore_case(w, "ei") ||
    chars_eq_str_ignore_case(w, "fr") ||
    chars_eq_str_ignore_case(w, "fst") ||
    chars_eq_str_ignore_case(w, "gd") ||
    chars_eq_str_ignore_case(w, "grt") ||
    chars_eq_str_ignore_case(w, "herf") ||
    chars_eq_str_ignore_case(w, "hm") ||
    chars_eq_str_ignore_case(w, "hmf") ||
    chars_eq_str_ignore_case(w, "imm") ||
    chars_eq_str_ignore_case(w, "ll") ||
    chars_eq_str_ignore_case(w, "lr") ||
    chars_eq_str_ignore_case(w, "mch") ||
    chars_eq_str_ignore_case(w, "myf") ||
    chars_eq_str_ignore_case(w, "mst") ||
    chars_eq_str_ignore_case(w, "nec") ||
    chars_eq_str_ignore_case(w, "nei") ||
    chars_eq_str_ignore_case(w, "onef") ||
    chars_eq_str_ignore_case(w, "ourvs") ||
    chars_eq_str_ignore_case(w, "pcv") ||
    chars_eq_str_ignore_case(w, "pcvg") ||
    chars_eq_str_ignore_case(w, "pd") ||
    chars_eq_str_ignore_case(w, "perh") ||
    chars_eq_str_ignore_case(w, "qk") ||
    chars_eq_str_ignore_case(w, "rcv") ||
    chars_eq_str_ignore_case(w, "rcvg") ||
    chars_eq_str_ignore_case(w, "rjc") ||
    chars_eq_str_ignore_case(w, "rjcg") ||
    chars_eq_str_ignore_case(w, "sch") ||
    chars_eq_str_ignore_case(w, "sd") ||
    chars_eq_str_ignore_case(w, "shd") ||
    chars_eq_str_ignore_case(w, "td") ||
    chars_eq_str_ignore_case(w, "tgr") ||
    chars_eq_str_ignore_case(w, "themvs") ||
    chars_eq_str_ignore_case(w, "thyf") ||
    chars_eq_str_ignore_case(w, "tm") ||
    chars_eq_str_ignore_case(w, "tn") ||
    chars_eq_str_ignore_case(w, "wd") ||
    chars_eq_str_ignore_case(w, "xf") ||
    chars_eq_str_ignore_case(w, "xs") ||
    chars_eq_str_ignore_case(w, "yr") ||
    chars_eq_str_ignore_case(w, "yrf") ||
    chars_eq_str_ignore_case(w, "yrvs")
}

pub open spec fn all_uppercase(run: Seq<char>) -> bool {
    forall|i: int| 0 <= i < run.len() ==> spec_is_ascii_uppercase(#[trigger] run[i])
}

pub open spec fn all_lowercase(run: Seq<char>) -> bool {
    forall|i: int| 0 <= i < run.len() ==> spec_is_ascii_lowercase(#[trigger] run[i])
}

// ---------------------------------------------------------------------------
// Contractions of Korean-context Roman words (rule 37 on UEB).

/// The number of contractions in the table.
pub const SIGN_COUNT: usize = 73;

/// Where in a letters-sequence a contraction may stand: anywhere, only at
/// its start, only in its middle, or anywhere but its start.
pub const PLACE_ANYWHERE: u8 = 0;
pub const PLACE_INITIAL: u8 = 1;
pub const PLACE_MEDIAL: u8 = 2;
pub const PLACE_NOT_INITIAL: u8 = 3;

/// The contractions that a Roman word in Korean text may use inside a word:
/// the strong contractions and groupsigns, the lower groupsigns, the
/// initial-letter contractions and the final-letter groupsigns. Each entry
/// is its lower-case spelling, its one or two cells (a second cell of 0
/// means none) and where it may stand.
pub open spec fn spec_sign(i: int) -> (Seq<char>, u8, u8, u8) {
    if i == 0 { ("and"@, 47u8, 0u8, 0u8) }
    else if i == 1 { ("for"@, 63u8, 0u8, 0u8) }
    else if i == 2 { ("of"@, 55u8, 0u8, 0u8) }
    else if i == 3 { ("the"@, 46u8, 0u8, 0u8) }
    else if i == 4 { ("with"@, 62u8, 0u8, 0u8) }
    else if i == 5 { ("ch"@, 33u8, 0u8, 0u8) }
    else if i == 6 { ("gh"@, 35u8, 0u8, 0u8) }
    else if i == 7 { ("sh"@, 41u8, 0u8, 0u8) }
    else if i == 8 { ("th"@, 57u8, 0u8, 0u8) }
    else if i == 9 { ("wh"@, 49u8, 0u8, 0u8) }
    else if i == 10 { ("ed"@, 43u8, 0u8, 0u8) }
    else if i == 11 { ("er"@, 59u8, 0u8, 0u8) }
    else if i == 12 { ("ou"@, 51u8, 0u8, 0u8) }
    else if i == 13 { ("ow"@, 42u8, 0u8, 0u8) }
    else if i == 14 { ("st"@, 12u8, 0u8, 0u8) }
    else if i == 15 { ("ar"@, 28u8, 0u8, 0u8) }
    else if i == 16 { ("ing"@, 44u8, 0u8, 3u8) }
    else if i == 17 { ("be"@, 6u8, 0u8, 1u8) }
    else if i == 18 { ("con"@, 18u8, 0u8, 1u8) }
    else if i == 19 { ("dis"@, 50u8, 0u8, 1u8) }
    else if i == 20 { ("com"@, 36u8, 0u8, 1u8) }
    else if i == 21 { ("en"@, 34u8, 0u8, 0u8) }
    else if i == 22 { ("in"@, 20u8, 0u8, 0u8) }
    else if i == 23 { ("ea"@, 2u8, 0u8, 2u8) }
    else if i == 24 { ("bb"@, 6u8, 0u8, 2u8) }
    else if i == 25 { ("cc"@, 18u8, 0u8, 2u8) }
    else if i == 26 { ("ff"@, 22u8, 0u8, 2u8) }
    else if i == 27 { ("gg"@, 54u8, 0u8, 2u8) }
    else if i == 28 { ("day"@, 16u8, 25u8, 0u8) }
    else if i == 29 { ("ever"@, 16u8, 17u8, 0u8) }
    else if i == 30 { ("father"@, 16u8, 11u8, 0u8) }
    else if i == 31 { ("here"@, 16u8, 19u8, 0u8) }
    else if i == 32 { ("know"@, 16u8, 5u8, 0u8) }
    else if i == 33 { ("lord"@, 16u8, 7u8, 0u8) }
    else if i == 34 { ("mother"@, 16u8, 13u8, 0u8) }
    else if i == 35 { ("name"@, 16u8, 29u8, 0u8) }
    else if i == 36 { ("one"@, 16u8, 21u8, 0u8) }
    else if i == 37 { ("part"@, 16u8, 15u8, 0u8) }
    else if i == 38 { ("question"@, 16u8, 31u8, 0u8) }
    else if i == 39 { ("right"@, 16u8, 23u8, 0u8) }
    else if i == 40 { ("some"@, 16u8, 14u8, 0u8) }
    else if i == 41 { ("time"@, 16u8, 30u8, 0u8) }
    else if i == 42 { ("under"@, 16u8, 37u8, 0u8) }
    else if i == 43 { ("work"@, 16u8, 58u8, 0u8) }
    else if i == 44 { ("young"@, 16u8, 61u8, 0u8) }
    else if i == 45 { ("there"@, 16u8, 46u8, 0u8) }
    else if i == 46 { ("character"@, 16u8, 33u8, 0u8) }
    else if i == 47 { ("through"@, 16u8, 57u8, 0u8) }
    else if i == 48 { ("where"@, 16u8, 49u8, 0u8) }
    else if i == 49 { ("ought"@, 16u8, 51u8, 0u8) }
    else if i == 50 { ("upon"@, 24u8, 37u8, 0u8) }
    else if i == 51 { ("these"@, 24u8, 46u8, 0u8) }
    else if i == 52 { ("those"@, 24u8, 57u8, 0u8) }
    else if i == 53 { ("whose"@, 24u8, 49u8, 0u8) }
    else if i == 54 { ("word"@, 24u8, 58u8, 0u8) }
    else if i == 55 { ("cannot"@, 56u8, 9u8, 0u8) }
    else if i == 56 { ("had"@, 56u8, 19u8, 0u8) }
    else if i == 57 { ("many"@, 56u8, 13u8, 0u8) }
    else if i == 58 { ("spirit"@, 56u8, 14u8, 0u8) }
    else if i == 59 { ("world"@, 56u8, 58u8, 0u8) }
    else if i == 60 { ("their"@, 56u8, 46u8, 0u8) }
    else if i == 61 { ("ound"@, 40u8, 25u8, 3u8) }
    else if i == 62 { ("ance"@, 40u8, 17u8, 3u8) }
    else if i == 63 { ("sion"@, 40u8, 29u8, 3u8) }
    else if i == 64 { ("less"@, 40u8, 14u8, 3u8) }
    else if i == 65 { ("ount"@, 40u8, 30u8, 3u8) }
    else if i == 66 { ("ence"@, 48u8, 17u8, 3u8) }
    else if i == 67 { ("ong"@, 48u8, 27u8, 3u8) }
    else if i == 68 { ("ful"@, 48u8, 7u8, 3u8) }
    else if i == 69 { ("tion"@, 48u8, 29u8, 3u8) }
    else if i == 70 { ("ness"@, 48u8, 14u8, 3u8) }
    else if i == 71 { ("ment"@, 48u8, 30u8, 3u8) }
    else { ("ity"@, 48u8, 61u8, 3u8) }
}

pub fn sign(i: usize) -> (r: (&'static str, u8, u8, u8))
    requires
        i < SIGN_COUNT,
    ensures
        r.0@ == spec_sign(i as int).0,
        r.1 == spec_sign(i as int).1,
        r.2 == spec_sign(i as int).2,
        r.3 == spec_sign(i as int).3,
{
    if i == 0 { ("and", 47, 0, 0) }
    else if i == 1 { ("for", 63, 0, 0) }
    else if i == 2 { ("of", 55, 0, 0) }
    else if i == 3 { ("the", 46, 0, 0) }
    else if i == 4 { ("with", 62, 0, 0) }
    else if i == 5 { ("ch", 33, 0, 0) }
    else if i == 6 { ("gh", 35, 0, 0) }
    else if i == 7 { ("sh", 41, 0, 0) }
    else if i == 8 { ("th", 57, 0, 0) }
    else if i == 9 { ("wh", 49, 0, 0) }
    else if i == 10 { ("ed", 43, 0, 0) }
    else if i == 11 { ("er", 59, 0, 0) }
    else if i == 12 { ("ou", 51, 0, 0) }
    else if i == 13 { ("ow", 42, 0, 0) }
    else if i == 14 { ("st", 12, 0, 0) }
    else if i == 15 { ("ar", 28, 0, 0) }
    else if i == 16 { ("ing", 44, 0, 3) }
    else if i == 17 { ("be", 6, 0, 1) }
    else if i == 18 { ("con", 18, 0, 1) }
    else if i == 19 { ("dis", 50, 0, 1) }
    else if i == 20 { ("com", 36, 0, 1) }
    else if i == 21 { ("en", 34, 0, 0) }
    else if i == 22 { ("in", 20, 0, 0) }
    else if i == 23 { ("ea", 2, 0, 2) }
    else if i == 24 { ("bb", 6, 0, 2) }
    else if i == 25 { ("cc", 18, 0, 2) }
    else if i == 26 { ("ff", 22, 0, 2) }
    else if i == 27 { ("gg", 54, 0, 2) }
    else if i == 28 { ("day", 16, 25, 0) }
    else if i == 29 { ("ever", 16, 17, 0) }
    else if i == 30 { ("father", 16, 11, 0) }
    else if i == 31 { ("here", 16, 19, 0) }
    else if i == 32 { ("know", 16, 5, 0) }
    else if i == 33 { ("lord", 16, 7, 0) }
    else if i == 34 { ("mother", 16, 13, 0) }
    else if i == 35 { ("name", 16, 29, 0) }
    else if i == 36 { ("one", 16, 21, 0) }
    else if i == 37 { ("part", 16, 15, 0) }
    else if i == 38 { ("question", 16, 31, 0) }
    else if i == 39 { ("right", 16, 23, 0) }
    else if i == 40 { ("some", 16, 14, 0) }
    else if i == 41 { ("time", 16, 30, 0) }
    else if i == 42 { ("under", 16, 37, 0) }
    else if i == 43 { ("work", 16, 58, 0) }
    else if i == 44 { ("young", 16, 61, 0) }
    else if i == 45 { ("there", 16, 46, 0) }
    else if i == 46 { ("character", 16, 33, 0) }
    else if i == 47 { ("through", 16, 57, 0) }
    else if i == 48 { ("where", 16, 49, 0) }
    else if i == 49 { ("ought", 16, 51, 0) }
    else if i == 50 { ("upon", 24, 37, 0) }
    else if i == 51 { ("these", 24, 46, 0) }
    else if i == 52 { ("those", 24, 57, 0) }
    else if i == 53 { ("whose", 24, 49, 0) }
    else if i == 54 { ("word", 24, 58, 0) }
    else if i == 55 { ("cannot", 56, 9, 0) }
    else if i == 56 { ("had", 56, 19, 0) }
    else if i == 57 { ("many", 56, 13, 0) }
    else if i == 58 { ("spirit", 56, 14, 0) }
    else if i == 59 { ("world", 56, 58, 0) }
    else if i == 60 { ("their", 56, 46, 0) }
    else if i == 61 { ("ound", 40, 25, 3) }
    else if i == 62 { ("ance", 40, 17, 3) }
    else if i == 63 { ("sion", 40, 29, 3) }
    else if i == 64 { ("less", 40, 14, 3) }
    else if i == 65 { ("ount", 40, 30, 3) }
    else if i == 66 { ("ence", 48, 17, 3) }
    else if i == 67 { ("ong", 48, 27, 3) }
    else if i == 68 { ("ful", 48, 7, 3) }
    else if i == 69 { ("tion", 48, 29, 3) }
    else if i == 70 { ("ness", 48, 14, 3) }
    else if i == 71 { ("ment", 48, 30, 3) }
    else { ("ity", 48, 61, 3) }
}

/// The contractions of a Roman word in Korean text, as UEB gives them: the
/// letters, the braille pattern characters and where the sign may stand.
pub open spec fn contraction_table() -> Seq<(Seq<char>, Seq<char>, u8)> {
    seq![
        (seq!['a', 'n', 'd'], seq!['⠯'], PLACE_ANYWHERE),
        (seq!['f', 'o', 'r'], seq!['⠿'], PLACE_ANYWHERE),
        (seq!['o', 'f'], seq!['⠷'], PLACE_ANYWHERE),
        (seq!['t', 'h', 'e'], seq!['⠮'], PLACE_ANYWHERE),
        (seq!['w', 'i', 't', 'h'], seq!['⠾'], PLACE_ANYWHERE),
        (seq!['c', 'h'], seq!['⠡'], PLACE_ANYWHERE),
        (seq!['g', 'h'], seq!['⠣'], PLACE_ANYWHERE),
        (seq!['s', 'h'], seq!['⠩'], PLACE_ANYWHERE),
        (seq!['t', 'h'], seq!['⠹'], PLACE_ANYWHERE),
        (seq!['w', 'h'], seq!['⠱'], PLACE_ANYWHERE),
        (seq!['e', 'd'], seq!['⠫'], PLACE_ANYWHERE),
        (seq!['e', 'r'], seq!['⠻'], PLACE_ANYWHERE),
        (seq!['o', 'u'], seq!['⠳'], PLACE_ANYWHERE),
        (seq!['o', 'w'], seq!['⠪'], PLACE_ANYWHERE),
        (seq!['s', 't'], seq!['⠌'], PLACE_ANYWHERE),
        (seq!['a', 'r'], seq!['⠜'], PLACE_ANYWHERE),
        (seq!['i', 'n', 'g'], seq!['⠬'], PLACE_NOT_INITIAL),
        (seq!['b', 'e'], seq!['⠆'], PLACE_INITIAL),
        (seq!['c', 'o', 'n'], seq!['⠒'], PLACE_INITIAL),
        (seq!['d', 'i', 's'], seq!['⠲'], PLACE_INITIAL),
        (seq!['c', 'o', 'm'], seq!['⠤'], PLACE_INITIAL),
        (seq!['e', 'n'], seq!['⠢'], PLACE_ANYWHERE),
        (seq!['i', 'n'], seq!['⠔'], PLACE_ANYWHERE),
        (seq!['e', 'a'], seq!['⠂'], PLACE_MEDIAL),
        (seq!['b', 'b'], seq!['⠆'], PLACE_MEDIAL),
        (seq!['c', 'c'], seq!['⠒'], PLACE_MEDIAL),
        (seq!['f', 'f'], seq!['⠖'], PLACE_MEDIAL),
        (seq!['g', 'g'], seq!['⠶'], PLACE_MEDIAL),
        (seq!['d', 'a', 'y'], seq!['⠐', '⠙'], PLACE_ANYWHERE),
        (seq!['e', 'v', 'e', 'r'], seq!['⠐', '⠑'], PLACE_ANYWHERE),
        (seq!['f', 'a', 't', 'h', 'e', 'r'], seq!['⠐', '⠋'], PLACE_ANYWHERE),
        (seq!['h', 'e', 'r', 'e'], seq!['⠐', '⠓'], PLACE_ANYWHERE),
        (seq!['k', 'n', 'o', 'w'], seq!['⠐', '⠅'], PLACE_ANYWHERE),
        (seq!['l', 'o', 'r', 'd'], seq!['⠐', '⠇'], PLACE_ANYWHERE),
        (seq!['m', 'o', 't', 'h', 'e', 'r'], seq!['⠐', '⠍'], PLACE_ANYWHERE),
        (seq!['n', 'a', 'm', 'e'], seq!['⠐', '⠝'], PLACE_ANYWHERE),
        (seq!['o', 'n', 'e'], seq!['⠐', '⠕'], PLACE_ANYWHERE),
        (seq!['p', 'a', 'r', 't'], seq!['⠐', '⠏'], PLACE_ANYWHERE),
        (seq!['q', 'u', 'e', 's', 't', 'i', 'o', 'n'], seq!['⠐', '⠟'], PLACE_ANYWHERE),
        (seq!['r', 'i', 'g', 'h', 't'], seq!['⠐', '⠗'], PLACE_ANYWHERE),
        (seq!['s', 'o', 'm', 'e'], seq!['⠐', '⠎'], PLACE_ANYWHERE),
        (seq!['t', 'i', 'm', 'e'], seq!['⠐', '⠞'], PLACE_ANYWHERE),
        (seq!['u', 'n', 'd', 'e', 'r'], seq!['⠐', '⠥'], PLACE_ANYWHERE),
        (seq!['w', 'o', 'r', 'k'], seq!['⠐', '⠺'], PLACE_ANYWHERE),
        (seq!['y', 'o', 'u', 'n', 'g'], seq!['⠐', '⠽'], PLACE_ANYWHERE),
        (seq!['t', 'h', 'e', 'r', 'e'], seq!['⠐', '⠮'], PLACE_ANYWHERE),
        (seq!['c', 'h', 'a', 'r', 'a', 'c', 't', 'e', 'r'], seq!['⠐', '⠡'], PLACE_ANYWHERE),
        (seq!['t', 'h', 'r', 'o', 'u', 'g', 'h'], seq!['⠐', '⠹'], PLACE_ANYWHERE),
        (seq!['w', 'h', 'e', 'r', 'e'], seq!['⠐', '⠱'], PLACE_ANYWHERE),
        (seq!['o', 'u', 'g', 'h', 't'], seq!['⠐', '⠳'], PLACE_ANYWHERE),
        (seq!['u', 'p', 'o', 'n'], seq!['⠘', '⠥'], PLACE_ANYWHERE),
        (seq!['t', 'h', 'e', 's', 'e'], seq!['⠘', '⠮'], PLACE_ANYWHERE),
        (seq!['t', 'h', 'o', 's', 'e'], seq!['⠘', '⠹'], PLACE_ANYWHERE),
        (seq!['w', 'h', 'o', 's', 'e'], seq!['⠘', '⠱'], PLACE_ANYWHERE),
        (seq!['w', 'o', 'r', 'd'], seq!['⠘', '⠺'], PLACE_ANYWHERE),
        (seq!['c', 'a', 'n', 'n', 'o', 't'], seq!['⠸', '⠉'], PLACE_ANYWHERE),
        (seq!['h', 'a', 'd'], seq!['⠸', '⠓'], PLACE_ANYWHERE),
        (seq!['m', 'a', 'n', 'y'], seq!['⠸', '⠍'], PLACE_ANYWHERE),
        (seq!['s', 'p', 'i', 'r', 'i', 't'], seq!['⠸', '⠎'], PLACE_ANYWHERE),
        (seq!['w', 'o', 'r', 'l', 'd'], seq!['⠸', '⠺'], PLACE_ANYWHERE),
        (seq!['t', 'h', 'e', 'i', 'r'], seq!['⠸', '⠮'], PLACE_ANYWHERE),
        (seq!['o', 'u', 'n', 'd'], seq!['⠨', '⠙'], PLACE_NOT_INITIAL),
        (seq!['a', 'n', 'c', 'e'], seq!['⠨', '⠑'], PLACE_NOT_INITIAL),
        (seq!['s', 'i', 'o', 'n'], seq!['⠨', '⠝'], PLACE_NOT_INITIAL),
        (seq!['l', 'e', 's', 's'], seq!['⠨', '⠎'], PLACE_NOT_INITIAL),
        (seq!['o', 'u', 'n', 't'], seq!['⠨', '⠞'], PLACE_NOT_INITIAL),
        (seq!['e', 'n', 'c', 'e'], seq!['⠰', '⠑'], PLACE_NOT_INITIAL),
        (seq!['o', 'n', 'g'], seq!['⠰', '⠛'], PLACE_NOT_INITIAL),
        (seq!['f', 'u', 'l'], seq!['⠰', '⠇'], PLACE_NOT_INITIAL),
        (seq!['t', 'i', 'o', 'n'], seq!['⠰', '⠝'], PLACE_NOT_INITIAL),
        (seq!['n', 'e', 's', 's'], seq!['⠰', '⠎'], PLACE_NOT_INITIAL),
        (seq!['m', 'e', 'n', 't'], seq!['⠰', '⠞'], PLACE_NOT_INITIAL),
        (seq!['i', 't', 'y'], seq!['⠰', '⠽'], PLACE_NOT_INITIAL),
    ]
}

/// The cells of a string of braille pattern characters.
pub open spec fn pattern_cells(s: Seq<char>) -> Seq<u8> {
    s.map_values(|c: char| (c as u32 - 0x2800) as u8)
}

/// Every contraction the encoder may use is the UEB sign of its letters,
/// allowed where UEB allows it.
pub proof fn lemma_contractions_follow_ueb(i: int)
    requires
        0 <= i < SIGN_COUNT,
    ensures
        spec_sign(i).0 == contraction_table()[i].0,
        spec_sign_cells(i) == pattern_cells(contraction_table()[i].1),
        spec_sign(i).3 == contraction_table()[i].2,
{
    reveal_strlit("and");
    reveal_strlit("for");
    reveal_strlit("of");
    reveal_strlit("the");
    reveal_strlit("with");
    reveal_strlit("ch");
    reveal_strlit("gh");
    reveal_strlit("sh");
    reveal_strlit("th");
    reveal_strlit("wh");
    reveal_strlit("ed");
    reveal_strlit("er");
    reveal_strlit("ou");
    reveal_strlit("ow");
    reveal_strlit("st");
    reveal_strlit("ar");
    reveal_strlit("ing");
    reveal_strlit("be");
    reveal_strlit("con");
    reveal_strlit("dis");
    reveal_strlit("com");
    reveal_strlit("en");
    reveal_strlit("in");
    reveal_strlit("ea");
    reveal_strlit("bb");
    reveal_strlit("cc");
    reveal_strlit("ff");
    reveal_strlit("gg");
    reveal_strlit("day");
    reveal_strlit("ever");
    reveal_strlit("father");
    reveal_strlit("here");
    reveal_strlit("know");
    reveal_strlit("lord");
    reveal_strlit("mother");
    reveal_strlit("name");
    reveal_strlit("one");
    reveal_strlit("part");
    reveal_strlit("question");
    reveal_strlit("right");
    reveal_strlit("some");
    reveal_strlit("time");
    reveal_strlit("under");
    reveal_strlit("work");
    reveal_strlit("young");
    reveal_strlit("there");
    reveal_strlit("character");
    reveal_strlit("through");
    reveal_strlit("where");
    reveal_strlit("ought");
    reveal_strlit("upon");
    reveal_strlit("these");
    reveal_strlit("those");
    reveal_strlit("whose");
    reveal_strlit("word");
    reveal_strlit("cannot");
    reveal_strlit("had");
    reveal_strlit("many");
    reveal_strlit("spirit");
    reveal_strlit("world");
    reveal_strlit("their");
    reveal_strlit("ound");
    reveal_strlit("ance");
    reveal_strlit("sion");
    reveal_strlit("less");
    reveal_strlit("ount");
    reveal_strlit("ence");
    reveal_strlit("ong");
    reveal_strlit("ful");
    reveal_strlit("tion");
    reveal_strlit("ness");
    reveal_strlit("ment");
    reveal_strlit("ity");
        assert("and"@ =~= contraction_table()[0].0);
        assert("for"@ =~= contraction_table()[1].0);
        assert("of"@ =~= contraction_table()[2].0);
        assert("the"@ =~= contraction_table()[3].0);
        assert("with"@ =~= contraction_table()[4].0);
        assert("ch"@ =~= contraction_table()[5].0);
        assert("gh"@ =~= contraction_table()[6].0);
        assert("sh"@ =~= contraction_table()[7].0);
        assert("th"@ =~= contraction_table()[8].0);
        assert("wh"@ =~= contraction_table()[9].0);
        assert("ed"@ =~= contraction_table()[10].0);
        assert("er"@ =~= contraction_table()[11].0);
        assert("ou"@ =~= contraction_table()[12].0);
        assert("ow"@ =~= contraction_table()[13].0);
        assert("st"@ =~= contraction_table()[14].0);
        assert("ar"@ =~= contraction_table()[15].0);
        assert("ing"@ =~= contraction_table()[16].0);
        assert("be"@ =~= contraction_table()[17].0);
        assert("con"@ =~= contraction_table()[18].0);
        assert("dis"@ =~= contraction_table()[19].0);
        assert("com"@ =~= contraction_table()[20].0);
        assert("en"@ =~= contraction_table()[21].0);
        assert("in"@ =~= contraction_table()[22].0);
        assert("ea"@ =~= contraction_table()[23].0);
        assert("bb"@ =~= contraction_table()[24].0);
        assert("cc"@ =~= contraction_table()[25].0);
        assert("ff"@ =~= contraction_table()[26].0);
        assert("gg"@ =~= contraction_table()[27].0);
        assert("day"@ =~= contraction_table()[28].0);
        assert("ever"@ =~= contraction_table()[29].0);
        assert("father"@ =~= contraction_table()[30].0);
        assert("here"@ =~= contraction_table()[31].0);
        assert("know"@ =~= contraction_table()[32].0);
        assert("lord"@ =~= contraction_table()[33].0);
        assert("mother"@ =~= contraction_table()[34].0);
        assert("name"@ =~= contraction_table()[35].0);
        assert("one"@ =~= contraction_table()[36].0);
        assert("part"@ =~= contraction_table()[37].0);
        assert("question"@ =~= contraction_table()[38].0);
        assert("right"@ =~= contraction_table()[39].0);
        assert("some"@ =~= contraction_table()[40].0);
        assert("time"@ =~= contraction_table()[41].0);
        assert("under"@ =~= contraction_table()[42].0);
        assert("work"@ =~= contraction_table()[43].0);
        assert("young"@ =~= contraction_table()[44].0);
        assert("there"@ =~= contraction_table()[45].0);
        assert("character"@ =~= contraction_table()[46].0);
        assert("through"@ =~= contraction_table()[47].0);
        assert("where"@ =~= contraction_table()[48].0);
        assert("ought"@ =~= contraction_table()[49].0);
        assert("upon"@ =~= contraction_table()[50].0);
        assert("these"@ =~= contraction_table()[51].0);
        assert("those"@ =~= contraction_table()[52].0);
        assert("whose"@ =~= contraction_table()[53].0);
        assert("word"@ =~= contraction_table()[54].0);
        assert("cannot"@ =~= contraction_table()[55].0);
        assert("had"@ =~= contraction_table()[56].0);
        assert("many"@ =~= contraction_table()[57].0);
        assert("spirit"@ =~= contraction_table()[58].0);
        assert("world"@ =~= contraction_table()[59].0);
        assert("their"@ =~= contraction_table()[60].0);
        assert("ound"@ =~= contraction_table()[61].0);
        assert("ance"@ =~= contraction_table()[62].0);
        assert("sion"@ =~= contraction_table()[63].0);
        assert("less"@ =~= contraction_table()[64].0);
        assert("ount"@ =~= contraction_table()[65].0);
        assert("ence"@ =~= contraction_table()[66].0);
        assert("ong"@ =~= contraction_table()[67].0);
        assert("ful"@ =~= contraction_table()[68].0);
        assert("tion"@ =~= contraction_table()[69].0);
        assert("ness"@ =~= contraction_table()[70].0);
        assert("ment"@ =~= contraction_table()[71].0);
        assert("ity"@ =~= contraction_table()[72].0);
    assert(pattern_cells(contraction_table()[i].1) =~= spec_sign_cells(i));
}

/// The cells of contraction `i`.
pub open spec fn spec_sign_cells(i: int) -> Seq<u8> {
    if spec_sign(i).2 == 0 {
        seq![spec_sign(i).1]
    } else {
        seq![spec_sign(i).1, spec_sign(i).2]
    }
}

/// A contraction of kind `place` may cover the letters `start..end` of a
/// letters-sequence of `len` letters.
pub open spec fn place_ok(place: u8, start: int, end: int, len: int) -> bool {
    ||| place == PLACE_ANYWHERE
    ||| place == PLACE_INITIAL && start == 0
    ||| place == PLACE_MEDIAL && start > 0 && end < len
    ||| place == PLACE_NOT_INITIAL && start > 0
}

/// Contraction `i` may stand at position `p` of the letters-sequence `run`:
/// its letters are there in either case, it is allowed at that place, it
/// does not cover the whole sequence (rule 37 suppresses whole-word
/// contractions), and it covers no capital but its first letter unless
/// `caps_ok` (the sequence is in capitals-word mode).
pub open spec fn sign_applies(run: Seq<char>, p: int, i: int, caps_ok: bool) -> bool {
    let w = spec_sign(i).0;
    let end = p + w.len();
    &&& w.len() >= 2
    &&& 0 <= p
    &&& end <= run.len()
    &&& !(p == 0 && end == run.len())
    &&& spec_eq_str_ignore_case(run.subrange(p, end), w)
    &&& (caps_ok || forall|k: int| p < k < end ==> !spec_is_ascii_uppercase(#[trigger] run[k]))
    &&& place_ok(spec_sign(i).3, p, end, run.len() as int)
}

/// Among the first `n` contractions, the longest that may stand at `p`
/// (the later one among equals).
pub open spec fn best_sign(run: Seq<char>, p: int, caps_ok: bool, n: int) -> Option<int>
    decreases n,
{
    if n <= 0 {
        None
    } else {
        let prev = best_sign(run, p, caps_ok, n - 1);
        if sign_applies(run, p, n - 1, caps_ok) && (prev is None || spec_sign(n - 1).0.len()
            >= spec_sign(prev->0).0.len()) {
            Some(n - 1)
        } else {
            prev
        }
    }
}

pub proof fn lemma_best_sign_applies(run: Seq<char>, p: int, caps_ok: bool, n: int)
    requires
        best_sign(run, p, caps_ok, n) is Some,
    ensures
        0 <= best_sign(run, p, caps_ok, n)->0 < n,
        sign_applies(run, p, best_sign(run, p, caps_ok, n)->0, caps_ok),
    decreases n,
{
    let prev = best_sign(run, p, caps_ok, n - 1);
    if !(sign_applies(run, p, n - 1, caps_ok) && (prev is None || spec_sign(n - 1).0.len()
        >= spec_sign(prev->0).0.len())) {
        lemma_best_sign_applies(run, p, caps_ok, n - 1);
    }
}

/// The cells of the letters of `run` from position `p` on: at each position
/// the longest contraction that may stand there, or else the alphabet sign,
/// with a capital indicator before a capital unless `caps_mode` (the
/// capitals-word indicator is already written).
pub open spec fn spec_contract(run: Seq<char>, p: int, caps_mode: bool, caps_ok: bool) -> Seq<u8>
    decreases run.len() - p,
{
    if p < 0 || p >= run.len() {
        Seq::empty()
    } else {
        let cap: Seq<u8> = if !caps_mode && spec_is_ascii_uppercase(run[p]) {
            seq![CAPITAL]
        } else {
            Seq::empty()
        };
        match best_sign(run, p, caps_ok, SIGN_COUNT as int) {
            Some(i) => {
                proof {
                    lemma_best_sign_applies(run, p, caps_ok, SIGN_COUNT as int);
                }
                cap + spec_sign_cells(i) + spec_contract(run, p + spec_sign(i).0.len(), caps_mode, caps_ok)
            },
            None => cap + seq![spec_letter_cell(run[p])] + spec_contract(run, p + 1, caps_mode, caps_ok),
        }
    }
}

fn sign_applies_at(run: &[char], p: usize, i: usize, caps_ok: bool) -> (r: bool)
    requires
        p <= run@.len(),
        i < SIGN_COUNT,
    ensures
        r == sign_applies(run@, p as int, i as int, caps_ok),
{
    let (w, _, _, place) = sign(i);
    let n = w.unicode_len();
    if n < 2 || n > run.len() - p {
        return false;
    }
    let end = p + n;
    if p == 0 && end == run.len() {
        return false;
    }
    let part = &run[p..end];
    assert(part@ == run@.subrange(p as int, end as int));
    if !chars_eq_str_ignore_case(part, w) {
        return false;
    }
    if !caps_ok {
        let mut k = p + 1;
        while k < end
            invariant
                p < k <= end <= run@.len(),
                end == p + spec_sign(i as int).0.len(),
                !caps_ok,
                forall|j: int| p < j < k ==> !spec_is_ascii_uppercase(#[trigger] run@[j]),
            decreases end - k,
        {
            if is_ascii_uppercase(run[k]) {
                assert(spec_is_ascii_uppercase(run@[k as int]));
                assert(!(forall|j: int| p < j < end ==> !spec_is_ascii_uppercase(#[trigger] run@[j])));
                return false;
            }
            k += 1;
        }
    }
    let len = run.len();
    place == PLACE_ANYWHERE || (place == PLACE_INITIAL && p == 0) || (place == PLACE_MEDIAL && p > 0
        && end < len) || (place == PLACE_NOT_INITIAL && p > 0)
}

/// The longest contraction that may stand at `p`, as its index.
pub fn best_sign_at(run: &[char], p: usize, caps_ok: bool) -> (r: Option<usize>)
    requires
        p <= run@.len(),
    ensures
        r == match best_sign(run@, p as int, caps_ok, SIGN_COUNT as int) {
            Some(i) => Some(i as usize),
            None => None::<usize>,
        },
        r matches Some(i) ==> i < SIGN_COUNT,
{
    let mut best: Option<usize> = None;
    let mut best_len: usize = 0;
    let mut i: usize = 0;
    while i < SIGN_COUNT
        invariant
            i <= SIGN_COUNT,
            p <= run@.len(),
            best_sign(run@, p as int, caps_ok, i as int) == match best {
                Some(b) => Some(b as int),
                None => None::<int>,
            },
            best is Some ==> best->0 < i && best_len == spec_sign(best->0 as int).0.len(),
        decreases SIGN_COUNT - i,
    {
        if sign_applies_at(run, p, i, caps_ok) {
            let (w, _, _, _) = sign(i);
            let len = w.unicode_len();
            if best.is_none() || len >= best_len {
                best = Some(i);
                best_len = len;
            }
        }
        i += 1;
    }
    best
}

/// The cells of `run` by `spec_contract` from its start.
fn contract(run: &[char], caps_mode: bool, caps_ok: bool) -> (r: Vec<u8>)
    ensures
        r@ == spec_contract(run@, 0, caps_mode, caps_ok),
{
    let mut out: Vec<u8> = Vec::new();
    let mut p: usize = 0;
    while p < run.len()
        invariant
            p <= run@.len(),
            out@ + spec_contract(run@, p as int, caps_mode, caps_ok) == spec_contract(run@, 0, caps_mode, caps_ok),
        decreases run@.len() - p,
    {
        let ghost before = out@;
        let ghost q = p as int;
        let c = run[p];
        let ghost cap: Seq<u8> = if !caps_mode && spec_is_ascii_uppercase(c) { seq![CAPITAL] } else { Seq::empty() };
        if !caps_mode && is_ascii_uppercase(c) {
            out.push(CAPITAL);
        }
        assert(out@ =~= before + cap);
        let best = best_sign_at(run, p, caps_ok);
        let ghost piece: Seq<u8> = match best {
            Some(i) => spec_sign_cells(i as int),
            None => seq![spec_letter_cell(c)],
        };
        match best {
            Some(i) => {
                proof {
                    lemma_best_sign_applies(run@, q, caps_ok, SIGN_COUNT as int);
                }
                let (w, c1, c2, _) = sign(i);
                out.push(c1);
                if c2 != 0 {
                    out.push(c2);
                }
                assert(out@ =~= before + cap + piece);
                p = p + w.unicode_len();
            },
            None => {
                out.push(letter_cell(c));
                assert(out@ =~= before + cap + piece);
                p = p + 1;
            },
        }
        assert(spec_contract(run@, q, caps_mode, caps_ok) == cap + piece + spec_contract(run@, p as int, caps_mode, caps_ok));
        assert(out@ + spec_contract(run@, p as int, caps_mode, caps_ok) =~= before + spec_contract(run@, q, caps_mode, caps_ok));
    }
    assert(out@ + spec_contract(run@, p as int, caps_mode, caps_ok) =~= out@);
    out
}

/// A letters-sequence with its capitals and contractions: no capital
/// indicator when capitals-word mode is already on, the capitals-word
/// indicator ⠠⠠ before a run of two or more capitals, and otherwise an
/// indicator before each capital.
pub open spec fn spec_capitalized(run: Seq<char>, caps_already_emitted: bool) -> Seq<u8> {
    if caps_already_emitted {
        spec_contract(run, 0, true, all_uppercase(run))
    } else if run.len() >= 2 && all_uppercase(run) {
        seq![CAPITAL, CAPITAL] + spec_contract(run, 0, true, true)
    } else {
        spec_contract(run, 0, false, false)
    }
}

fn is_all_uppercase(run: &[char]) -> (r: bool)
    ensures
        r == all_uppercase(run@),
{
    let mut i: usize = 0;
    while i < run.len()
        invariant
            i <= run@.len(),
            forall|j: int| 0 <= j < i ==> spec_is_ascii_uppercase(#[trigger] run@[j]),
        decreases run@.len() - i,
    {
        if !is_ascii_uppercase(run[i]) {
            return false;
        }
        i += 1;
    }
    true
}

fn is_all_lowercase(run: &[char]) -> (r: bool)
    ensures
        r == all_lowercase(run@),
{
    let mut i: usize = 0;
    while i < run.len()
        invariant
            i <= run@.len(),
            forall|j: int| 0 <= j < i ==> spec_is_ascii_lowercase(#[trigger] run@[j]),
        decreases run@.len() - i,
    {
        if !is_ascii_lowercase(run[i]) {
            return false;
        }
        i += 1;
    }
    true
}

fn is_all_alphabetic(run: &[char]) -> (r: bool)
    ensures
        r == crate::utils::all_ascii_alphabetic(run@),
{
    let mut i: usize = 0;
    while i < run.len()
        invariant
            i <= run@.len(),
            forall|j: int| 0 <= j < i ==> spec_is_ascii_alphabetic(#[trigger] run@[j]),
        decreases run@.len() - i,
    {
        if !is_ascii_alphabetic(run[i]) {
            return false;
        }
        i += 1;
    }
    true
}

/// The cells of a Roman letters-sequence in Korean text: the grade 1
/// indicator when asked for, then the one-cell wordsign of a lower-case word
/// standing alone where it is allowed and exists, and otherwise the letters
/// with their capitals and contractions. `None` for a sequence that is empty or holds a
/// character other than an ASCII letter.
pub open spec fn spec_encode_korean_word(
    run: Seq<char>,
    caps_already_emitted: bool,
    prepend_grade1_indicator: bool,
    standalone_wordsign: bool,
) -> Option<Seq<u8>> {
    if run.len() == 0 || !crate::utils::all_ascii_alphabetic(run) {
        None
    } else {
        let grade1: Seq<u8> = if prepend_grade1_indicator { seq![GRADE1] } else { Seq::empty() };
        if standalone_wordsign && all_lowercase(run) && spec_wordsign(run) is Some {
            Some(grade1 + seq![spec_wordsign(run)->0])
        } else {
            Some(grade1 + spec_capitalized(run, caps_already_emitted))
        }
    }
}

/// Encodes a Roman letters-sequence of Korean text (rule 37 on UEB).
/// `word_initial` and `digit_adjacent` describe the sequence's position;
/// the cells written here do not depend on them.
pub fn encode_korean_word(
    run: &[char],
    caps_already_emitted: bool,
    prepend_grade1_indicator: bool,
    standalone_wordsign: bool,
    word_initial: bool,
    digit_adjacent: bool,
) -> (r: Option<Vec<u8>>)
    ensures
        r matches Some(cells) ==> spec_encode_korean_word(run@, caps_already_emitted, prepend_grade1_indicator, standalone_wordsign) == Some(cells@),
        r is None <==> spec_encode_korean_word(run@, caps_already_emitted, prepend_grade1_indicator, standalone_wordsign) is None,
{
    if run.len() == 0 || !is_all_alphabetic(run) {
        return None;
    }
    let mut out: Vec<u8> = Vec::new();
    if prepend_grade1_indicator {
        out.push(GRADE1);
    }
    let ghost grade1 = out@;
    if standalone_wordsign && is_all_lowercase(run) {
        if let Some(sign) = wordsign(run) {
            out.push(sign);
            return Some(out);
        }
    }
    let body = if caps_already_emitted {
        let caps_ok = is_all_uppercase(run);
        contract(run, true, caps_ok)
    } else if run.len() >= 2 && is_all_uppercase(run) {
        let mut b: Vec<u8> = vec![CAPITAL, CAPITAL];
        let mut rest = contract(run, true, true);
        let ghost l = rest@;
        b.append(&mut rest);
        assert(b@ =~= seq![CAPITAL, CAPITAL] + l);
        b
    } else {
        contract(run, false, false)
    };
    let mut body = body;
    let ghost bv = body@;
    out.append(&mut body);
    assert(out@ =~= grade1 + bv);
    Some(out)
}

/// The position in a word that the Roman rule encodes, with the context
/// that decides whether a wordsign may stand there.
pub struct KoreanPrefixInput<'a> {
    pub word: &'a [char],
    pub pos: usize,
    pub wrap_active: bool,
    pub is_all_uppercase: bool,
    pub at_entry: bool,
    pub standalone_wordsign: bool,
}

/// The cells for the letters at a position, whether they are a contraction,
/// and how many letters they stand for.
pub struct KoreanUnit {
    pub cells: Vec<u8>,
    pub contracted: bool,
    pub consumed: usize,
}

/// The start of the letters-sequence that holds position `pos`.
pub open spec fn letters_start(word: Seq<char>, pos: int) -> int
    decreases pos,
{
    if 0 < pos && pos <= word.len() && spec_is_ascii_alphabetic(word[pos - 1]) {
        letters_start(word, pos - 1)
    } else {
        pos
    }
}

/// The end of the letters-sequence that holds position `pos`.
pub open spec fn letters_end(word: Seq<char>, pos: int) -> int
    decreases word.len() - pos,
{
    if 0 <= pos && pos < word.len() && spec_is_ascii_alphabetic(word[pos]) {
        letters_end(word, pos + 1)
    } else {
        pos
    }
}

proof fn lemma_letters_bounds(word: Seq<char>, pos: int)
    requires
        0 <= pos < word.len(),
        spec_is_ascii_alphabetic(word[pos]),
    ensures
        0 <= letters_start(word, pos) <= pos < letters_end(word, pos) <= word.len(),
{
    lemma_letters_start(word, pos);
    lemma_letters_end(word, pos + 1);
}

proof fn lemma_letters_start(word: Seq<char>, pos: int)
    requires
        0 <= pos <= word.len(),
    ensures
        0 <= letters_start(word, pos) <= pos,
    decreases pos,
{
    if 0 < pos && spec_is_ascii_alphabetic(word[pos - 1]) {
        lemma_letters_start(word, pos - 1);
    }
}

proof fn lemma_letters_end(word: Seq<char>, pos: int)
    requires
        0 <= pos <= word.len(),
    ensures
        pos <= letters_end(word, pos) <= word.len(),
    decreases word.len() - pos,
{
    if pos < word.len() && spec_is_ascii_alphabetic(word[pos]) {
        lemma_letters_end(word, pos + 1);
    }
}

/// The letters at a position of a Roman word: the word's wordsign when the
/// whole lower-case word stands alone at its start; otherwise the longest
/// contraction that may stand there in the word's letters-sequence (no
/// capital but its first letter), or else the alphabet sign of the letter;
/// an error for a character that is not an ASCII letter. The result is the
/// cells, whether they are a contraction, and how many letters they cover.
pub open spec fn spec_korean_unit(word: Seq<char>, pos: int, standalone_wordsign: bool) -> Option<(Seq<u8>, bool, int)> {
    if pos == 0 && standalone_wordsign && word.len() > 0 && all_lowercase(word) && spec_wordsign(word) is Some {
        Some((seq![spec_wordsign(word)->0], true, word.len() as int))
    } else if 0 <= pos < word.len() && spec_is_ascii_alphabetic(word[pos]) {
        let start = letters_start(word, pos);
        let run = word.subrange(start, letters_end(word, pos));
        match best_sign(run, pos - start, false, SIGN_COUNT as int) {
            Some(i) => Some((spec_sign_cells(i), true, spec_sign(i).0.len() as int)),
            None => Some((seq![spec_letter_cell(word[pos])], false, 1int)),
        }
    } else {
        None
    }
}

/// The message of a position that holds no Roman letter.
pub open spec fn not_a_letter_message() -> Seq<char> {
    "not a Roman letter"@
}

/// Encodes the letters at `input.pos`, or the whole word as a wordsign.
pub fn encode_korean_unit(input: KoreanPrefixInput) -> (r: Result<KoreanUnit, String>)
    ensures
        r is Ok <==> spec_korean_unit(input.word@, input.pos as int, input.standalone_wordsign) is Some,
        r matches Ok(u) ==> spec_korean_unit(input.word@, input.pos as int, input.standalone_wordsign)
            == Some((u.cells@, u.contracted, u.consumed as int)),
        r matches Ok(u) ==> u.consumed >= 1,
        r matches Err(m) ==> m@ == not_a_letter_message(),
{
    let word = input.word;
    if input.pos == 0 && input.standalone_wordsign && word.len() > 0 && is_all_lowercase(word) {
        if let Some(sign) = wordsign(word) {
            return Ok(KoreanUnit { cells: vec![sign], contracted: true, consumed: word.len() });
        }
    }
    let pos = input.pos;
    if !(pos < word.len() && is_ascii_alphabetic(word[pos])) {
        return Err(String::from_str("not a Roman letter"));
    }
    proof {
        lemma_letters_bounds(word@, pos as int);
    }
    let mut start = pos;
    while start > 0 && is_ascii_alphabetic(word[start - 1])
        invariant
            start <= pos < word@.len(),
            letters_start(word@, start as int) == letters_start(word@, pos as int),
        decreases start,
    {
        start -= 1;
    }
    let mut end = pos + 1;
    while end < word.len() && is_ascii_alphabetic(word[end])
        invariant
            pos < end <= word@.len(),
            letters_end(word@, end as int) == letters_end(word@, pos as int),
        decreases word@.len() - end,
    {
        end += 1;
    }
    let run = &word[start..end];
    assert(run@ == word@.subrange(letters_start(word@, pos as int), letters_end(word@, pos as int)));
    match best_sign_at(run, pos - start, false) {
        Some(i) => {
            proof {
                lemma_best_sign_applies(run@, (pos - start) as int, false, SIGN_COUNT as int);
            }
            let (w, c1, c2, _) = sign(i);
            let cells = if c2 == 0 { vec![c1] } else { vec![c1, c2] };
            assert(cells@ =~= spec_sign_cells(i as int));
            Ok(KoreanUnit { cells, contracted: true, consumed: w.unicode_len() })
        },
        None => Ok(KoreanUnit { cells: vec![letter_cell(word[pos])], contracted: false, consumed: 1 }),
    }
}

} // verus!
