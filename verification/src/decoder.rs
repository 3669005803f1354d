//! Korean braille (Unicode U+2800..U+28FF) to Hangul decoder.
//!
//! The decoder reads braille cells (six-dot patterns, bit `k - 1` standing
//! for dot `k`) and rebuilds Hangul syllables with a small state machine:
//! a syllable is open after its initial consonant (`GotChoseong`) or after its
//! vowel (`GotJungseong`), and is closed by a final consonant, a blank cell,
//! an abbreviation or the start of the next syllable.
use vstd::prelude::*;

use crate::text::string_from_chars;

verus! {

/// The cell that a character of the input stands for: a braille pattern
/// character gives its dot pattern, a space or a line break gives the blank
/// cell, and every other character is ignored.
pub open spec fn spec_cell_of_char(c: char) -> Option<u8> {
    if 0x2800 <= c as u32 && c as u32 <= 0x28ff {
        Some((c as u32 - 0x2800) as u8)
    } else if c == ' ' || c == '\n' {
        Some(0u8)
    } else {
        None
    }
}

/// The cells of a whole input, in order, with ignored characters left out.
pub open spec fn spec_cells_of(s: Seq<char>) -> Seq<u8>
    decreases s.len(),
{
    if s.len() == 0 {
        Seq::empty()
    } else {
        let rest = spec_cells_of(s.drop_last());
        match spec_cell_of_char(s.last()) {
            Some(cell) => rest.push(cell),
            None => rest,
        }
    }
}

/// Decoder state between two cells.
#[derive(Clone, Copy, PartialEq, Eq, Structural)]
pub enum Stage {
    Start,
    GotChoseong(u32),
    GotJungseong(u32, u32),
}

/// The Hangul syllable with the given initial, medial and final indices
/// (the Unicode composition formula).
pub open spec fn spec_syllable(choseong: u32, jungseong: u32, jongseong: u32) -> char {
    ((choseong * 21 + jungseong) * 28 + jongseong + 0xac00) as char
}

/// Every Hangul syllable U+AC00..=U+D7A3.
pub open spec fn is_hangul_syllable(c: char) -> bool {
    0xac00 <= c as u32 && c as u32 <= 0xd7a3
}

/// Initial consonants in Unicode order, as compatibility jamo.
pub open spec fn spec_choseong_jamo(index: u32) -> char {
    if index == 0 { 'ㄱ' }
    else if index == 1 { 'ㄲ' }
    else if index == 2 { 'ㄴ' }
    else if index == 3 { 'ㄷ' }
    else if index == 4 { 'ㄸ' }
    else if index == 5 { 'ㄹ' }
    else if index == 6 { 'ㅁ' }
    else if index == 7 { 'ㅂ' }
    else if index == 8 { 'ㅃ' }
    else if index == 9 { 'ㅅ' }
    else if index == 10 { 'ㅆ' }
    else if index == 11 { 'ㅇ' }
    else if index == 12 { 'ㅈ' }
    else if index == 13 { 'ㅉ' }
    else if index == 14 { 'ㅊ' }
    else if index == 15 { 'ㅋ' }
    else if index == 16 { 'ㅌ' }
    else if index == 17 { 'ㅍ' }
    else if index == 18 { 'ㅎ' }
    else { '?' }
}

/// The compatibility jamo that stand for an initial consonant on its own.
pub open spec fn is_choseong_jamo(c: char) -> bool {
    exists|i: u32| i < 19 && spec_choseong_jamo(i) == c
}

/// Two-cell abbreviations of whole syllables (`성`, `정`, `청`, `것`).
pub open spec fn spec_two_cell_shortcut(cells: Seq<u8>, index: int) -> Option<(char, usize)> {
    if 0 <= index && index + 1 < cells.len() {
        let a = cells[index];
        let b = cells[index + 1];
        if a == 32 && b == 59 { Some(('성', 2usize)) }
        else if a == 40 && b == 59 { Some(('정', 2usize)) }
        else if a == 48 && b == 59 { Some(('청', 2usize)) }
        else if a == 56 && b == 14 { Some(('것', 2usize)) }
        else { None }
    } else {
        None
    }
}

/// One-cell abbreviations of a vowel with its final consonant
/// (medial index, final index).
pub open spec fn spec_syllable_shortcut(cell: u8) -> Option<(u32, u32)> {
    if cell == 57 { Some((4u32, 1u32)) }
    else if cell == 62 { Some((4u32, 4u32)) }
    else if cell == 30 { Some((4u32, 8u32)) }
    else if cell == 33 { Some((6u32, 4u32)) }
    else if cell == 51 { Some((6u32, 8u32)) }
    else if cell == 59 { Some((6u32, 21u32)) }
    else if cell == 45 { Some((8u32, 1u32)) }
    else if cell == 55 { Some((8u32, 4u32)) }
    else if cell == 63 { Some((8u32, 21u32)) }
    else if cell == 27 { Some((13u32, 4u32)) }
    else if cell == 47 { Some((13u32, 8u32)) }
    else if cell == 53 { Some((18u32, 4u32)) }
    else if cell == 46 { Some((18u32, 8u32)) }
    else if cell == 31 { Some((20u32, 4u32)) }
    else { None }
}

/// Consonant cells that abbreviate a syllable with the vowel `ㅏ`
/// beyond their initial-consonant reading (`가`, `사`).
pub open spec fn spec_consonant_a_shortcut(cell: u8) -> Option<u32> {
    if cell == 43 { Some(0u32) }
    else if cell == 7 { Some(9u32) }
    else { None }
}

/// Single-cell initial consonants (index in Unicode order).
pub open spec fn spec_single_choseong(cell: u8) -> Option<u32> {
    if cell == 8 { Some(0u32) }
    else if cell == 9 { Some(2u32) }
    else if cell == 10 { Some(3u32) }
    else if cell == 11 { Some(15u32) }
    else if cell == 16 { Some(5u32) }
    else if cell == 17 { Some(6u32) }
    else if cell == 19 { Some(16u32) }
    else if cell == 24 { Some(7u32) }
    else if cell == 25 { Some(17u32) }
    else if cell == 26 { Some(18u32) }
    else if cell == 32 { Some(9u32) }
    else if cell == 40 { Some(12u32) }
    else if cell == 48 { Some(14u32) }
    else { None }
}

/// The tense initial consonant that the doubling cell (`32`) followed by
/// `second` spells.
pub open spec fn spec_tense_choseong(second: u8) -> Option<u32> {
    if second == 8 || second == 43 { Some(1u32) }
    else if second == 10 { Some(4u32) }
    else if second == 24 { Some(8u32) }
    else if second == 7 || second == 32 { Some(10u32) }
    else if second == 40 { Some(13u32) }
    else { None }
}

/// An initial consonant at `index`: a tense one over two cells first,
/// then a single cell.
pub open spec fn spec_choseong(cells: Seq<u8>, index: int) -> Option<(u32, usize)> {
    if 0 <= index && index < cells.len() {
        let first = cells[index];
        if first == 32 && index + 1 < cells.len()
            && spec_tense_choseong(cells[index + 1]) is Some {
            Some((spec_tense_choseong(cells[index + 1])->0, 2usize))
        } else {
            match spec_single_choseong(first) {
                Some(value) => Some((value, 1usize)),
                None => None,
            }
        }
    } else {
        None
    }
}

/// Single-cell vowels (medial index in Unicode order).
pub open spec fn spec_single_jungseong(cell: u8) -> Option<u32> {
    if cell == 35 { Some(0u32) }
    else if cell == 23 { Some(1u32) }
    else if cell == 28 { Some(2u32) }
    else if cell == 14 { Some(4u32) }
    else if cell == 29 { Some(5u32) }
    else if cell == 49 { Some(6u32) }
    else if cell == 12 { Some(7u32) }
    else if cell == 37 { Some(8u32) }
    else if cell == 39 { Some(9u32) }
    else if cell == 61 { Some(11u32) }
    else if cell == 44 { Some(12u32) }
    else if cell == 13 { Some(13u32) }
    else if cell == 15 { Some(14u32) }
    else if cell == 41 { Some(17u32) }
    else if cell == 42 { Some(18u32) }
    else if cell == 58 { Some(19u32) }
    else if cell == 21 { Some(20u32) }
    else { None }
}

/// The one-cell vowels of the Korean braille table, as pairs of a braille
/// pattern character and the compatibility jamo of its vowel.
pub open spec fn vowel_table() -> Seq<(char, char)> {
    seq![
        ('⠣', 'ㅏ'), ('⠗', 'ㅐ'), ('⠜', 'ㅑ'), ('⠎', 'ㅓ'), ('⠝', 'ㅔ'), ('⠱', 'ㅕ'),
        ('⠌', 'ㅖ'), ('⠥', 'ㅗ'), ('⠧', 'ㅘ'), ('⠽', 'ㅚ'), ('⠬', 'ㅛ'), ('⠍', 'ㅜ'),
        ('⠏', 'ㅝ'), ('⠩', 'ㅠ'), ('⠪', 'ㅡ'), ('⠺', 'ㅢ'), ('⠕', 'ㅣ'),
    ]
}

/// The vowel that the table gives a cell, searching its first `n` rows, as
/// its medial index (the compatibility jamo ㅏ..ㅣ are in medial order from
/// U+314F).
pub open spec fn table_vowel(cell: u8, n: int) -> Option<u32>
    decreases n,
{
    if n <= 0 {
        None
    } else if vowel_table()[n - 1].0 as u32 == 0x2800 + cell {
        Some((vowel_table()[n - 1].1 as u32 - 0x314f) as u32)
    } else {
        table_vowel(cell, n - 1)
    }
}

/// Each one-cell vowel is read as the vowel of the Korean braille table, and
/// a cell outside the table is no one-cell vowel.
pub proof fn lemma_single_vowels_follow_the_table(cell: u8)
    ensures
        spec_single_jungseong(cell) == table_vowel(cell, 17),
{
    reveal_with_fuel(table_vowel, 18);
}

/// Different vowel cells are different vowels.
pub proof fn lemma_single_vowels_distinct(a: u8, b: u8)
    requires
        spec_single_jungseong(a) is Some,
        spec_single_jungseong(b) is Some,
        a != b,
    ensures
        spec_single_jungseong(a) != spec_single_jungseong(b),
{
}

/// The initial ㄱ (⠈) followed by a one-cell vowel of the table decodes to
/// the open syllable of ㄱ and that vowel (⠈⠥ is 고).
pub proof fn lemma_initial_with_vowel(vowel: u8)
    requires
        table_vowel(vowel, 17) is Some,
    ensures
        spec_decode_cells(seq![8u8, vowel]) == seq![spec_syllable(0, table_vowel(vowel, 17)->0, 0)],
{
    lemma_single_vowels_follow_the_table(vowel);
    let cells = seq![8u8, vowel];
    let ju = table_vowel(vowel, 17)->0;
    assert(spec_choseong(cells, 0) == Some((0u32, 1usize)));
    assert(spec_step(cells, 0, Stage::Start) == (Seq::<char>::empty(), Stage::GotChoseong(0), 1int));
    assert(spec_jungseong(cells, 1) == Some((ju, 1usize)));
    assert(spec_step(cells, 1, Stage::GotChoseong(0)) == (Seq::<char>::empty(), Stage::GotJungseong(0, ju), 2int));
    assert(spec_run(cells, 2, Stage::GotJungseong(0, ju)) == seq![spec_syllable(0, ju, 0)]);
    assert(spec_run(cells, 1, Stage::GotChoseong(0)) == seq![spec_syllable(0, ju, 0)]);
    assert(spec_run(cells, 0, Stage::Start) =~= seq![spec_syllable(0, ju, 0)]);
    let r = seq![spec_syllable(0, ju, 0)];
    assert(ju < 21);
    assert(spec_syllable(0, ju, 0) != ' ');
    assert(r[0] != ' ' && r.last() != ' ');
}

/// The initial consonants in Unicode order, as compatibility jamo.
pub open spec fn initials_order() -> Seq<char> {
    seq![
        'ㄱ', 'ㄲ', 'ㄴ', 'ㄷ', 'ㄸ', 'ㄹ', 'ㅁ', 'ㅂ', 'ㅃ', 'ㅅ', 'ㅆ', 'ㅇ', 'ㅈ', 'ㅉ', 'ㅊ', 'ㅋ',
        'ㅌ', 'ㅍ', 'ㅎ',
    ]
}

/// The final consonants in Unicode order (final index 1 on), as
/// compatibility jamo.
pub open spec fn finals_order() -> Seq<char> {
    seq![
        'ㄱ', 'ㄲ', 'ㄳ', 'ㄴ', 'ㄵ', 'ㄶ', 'ㄷ', 'ㄹ', 'ㄺ', 'ㄻ', 'ㄼ', 'ㄽ', 'ㄾ', 'ㄿ', 'ㅀ', 'ㅁ',
        'ㅂ', 'ㅄ', 'ㅅ', 'ㅆ', 'ㅇ', 'ㅈ', 'ㅊ', 'ㅋ', 'ㅌ', 'ㅍ', 'ㅎ',
    ]
}

/// The one-cell initial consonants of the Korean braille table.
pub open spec fn initial_table() -> Seq<(char, char)> {
    seq![
        ('⠈', 'ㄱ'), ('⠉', 'ㄴ'), ('⠊', 'ㄷ'), ('⠐', 'ㄹ'), ('⠑', 'ㅁ'), ('⠘', 'ㅂ'), ('⠠', 'ㅅ'),
        ('⠨', 'ㅈ'), ('⠰', 'ㅊ'), ('⠋', 'ㅋ'), ('⠓', 'ㅌ'), ('⠙', 'ㅍ'), ('⠚', 'ㅎ'),
    ]
}

/// The one-cell final consonants of the Korean braille table.
pub open spec fn final_table() -> Seq<(char, char)> {
    seq![
        ('⠁', 'ㄱ'), ('⠒', 'ㄴ'), ('⠔', 'ㄷ'), ('⠂', 'ㄹ'), ('⠢', 'ㅁ'), ('⠃', 'ㅂ'), ('⠄', 'ㅅ'),
        ('⠌', 'ㅆ'), ('⠶', 'ㅇ'), ('⠅', 'ㅈ'), ('⠆', 'ㅊ'), ('⠖', 'ㅋ'), ('⠦', 'ㅌ'), ('⠲', 'ㅍ'),
        ('⠴', 'ㅎ'),
    ]
}

/// The jamo that a table gives a cell, searching its first `n` rows.
pub open spec fn table_jamo(table: Seq<(char, char)>, cell: u8, n: int) -> Option<char>
    decreases n,
{
    if n <= 0 {
        None
    } else if table[n - 1].0 as u32 == 0x2800 + cell {
        Some(table[n - 1].1)
    } else {
        table_jamo(table, cell, n - 1)
    }
}

/// Each one-cell initial consonant is read as the consonant of the Korean
/// braille table, in Unicode order; other cells are none.
pub proof fn lemma_single_initials_follow_the_table(cell: u8)
    ensures
        spec_single_choseong(cell) is Some <==> table_jamo(initial_table(), cell, 13) is Some,
        spec_single_choseong(cell) matches Some(i) ==> i < 19 && initials_order()[i as int]
            == table_jamo(initial_table(), cell, 13)->0,
{
    reveal_with_fuel(table_jamo, 14);
}

/// An initial consonant standing alone is written as its compatibility jamo.
pub proof fn lemma_initial_jamo_follow_unicode_order(i: u32)
    requires
        i < 19,
    ensures
        spec_choseong_jamo(i) == initials_order()[i as int],
{
}

/// Each one-cell final consonant is read as the consonant of the Korean
/// braille table, in Unicode order; other cells are none.
pub proof fn lemma_single_finals_follow_the_table(cell: u8)
    ensures
        spec_single_jongseong(cell) is Some <==> table_jamo(final_table(), cell, 15) is Some,
        spec_single_jongseong(cell) matches Some(i) ==> 1 <= i <= 27 && finals_order()[i - 1]
            == table_jamo(final_table(), cell, 15)->0,
{
    reveal_with_fuel(table_jamo, 16);
}

/// The two-cell tables of the Korean braille code: the two braille
/// pattern characters and the jamo or syllable they spell.
pub open spec fn tense_initial_table() -> Seq<(char, char, char)> {
    seq![
        ('⠠', '⠈', 'ㄲ'), ('⠠', '⠫', 'ㄲ'), ('⠠', '⠊', 'ㄸ'), ('⠠', '⠘', 'ㅃ'), ('⠠', '⠠', 'ㅆ'),
        ('⠠', '⠇', 'ㅆ'), ('⠠', '⠨', 'ㅉ'),
    ]
}

pub open spec fn double_vowel_table() -> Seq<(char, char, char)> {
    seq![('⠜', '⠗', 'ㅒ'), ('⠧', '⠗', 'ㅙ'), ('⠏', '⠗', 'ㅞ'), ('⠍', '⠗', 'ㅟ')]
}

pub open spec fn double_final_table() -> Seq<(char, char, char)> {
    seq![
        ('⠁', '⠁', 'ㄲ'), ('⠁', '⠄', 'ㄳ'), ('⠒', '⠅', 'ㄵ'), ('⠒', '⠴', 'ㄶ'), ('⠂', '⠁', 'ㄺ'),
        ('⠂', '⠢', 'ㄻ'), ('⠂', '⠃', 'ㄼ'), ('⠂', '⠄', 'ㄽ'), ('⠂', '⠦', 'ㄾ'), ('⠂', '⠲', 'ㄿ'),
        ('⠂', '⠴', 'ㅀ'), ('⠃', '⠄', 'ㅄ'),
    ]
}

pub open spec fn two_cell_syllable_table() -> Seq<(char, char, char)> {
    seq![('⠠', '⠻', '성'), ('⠨', '⠻', '정'), ('⠰', '⠻', '청'), ('⠸', '⠎', '것')]
}

/// What a two-cell table gives the cells `a`, `b`, searching its first `n`
/// rows.
pub open spec fn table_pair(table: Seq<(char, char, char)>, a: u8, b: u8, n: int) -> Option<char>
    decreases n,
{
    if n <= 0 {
        None
    } else if table[n - 1].0 as u32 == 0x2800 + a && table[n - 1].1 as u32 == 0x2800 + b {
        Some(table[n - 1].2)
    } else {
        table_pair(table, a, b, n - 1)
    }
}

/// The one-cell syllable abbreviations: a braille pattern character and
/// the syllable it stands for after ㅇ or on its own.
pub open spec fn syllable_abbreviation_table() -> Seq<(char, char)> {
    seq![
        ('⠹', '억'), ('⠾', '언'), ('⠞', '얼'), ('⠡', '연'), ('⠳', '열'), ('⠻', '영'), ('⠭', '옥'),
        ('⠷', '온'), ('⠿', '옹'), ('⠛', '운'), ('⠯', '울'), ('⠵', '은'), ('⠮', '을'), ('⠟', '인'),
    ]
}

/// The tense initials are the doubling cell ⠠ before a plain initial (and
/// the ⠫ and ⠇ abbreviations), read in Unicode order.
pub proof fn lemma_tense_initials_follow_the_table(b: u8)
    ensures
        spec_tense_choseong(b) is Some <==> table_pair(tense_initial_table(), 32, b, 7) is Some,
        spec_tense_choseong(b) matches Some(i) ==> i < 19 && initials_order()[i as int]
            == table_pair(tense_initial_table(), 32, b, 7)->0,
{
    reveal_with_fuel(table_pair, 8);
}

/// The two-cell vowels ㅒ ㅙ ㅞ ㅟ, read in medial order.
pub proof fn lemma_double_vowels_follow_the_table(a: u8)
    ensures
        spec_double_jungseong(a) is Some <==> table_pair(double_vowel_table(), a, 23, 4) is Some,
        spec_double_jungseong(a) matches Some(i) ==> i == table_pair(double_vowel_table(), a, 23, 4)->0
            as u32 - 0x314f,
{
    reveal_with_fuel(table_pair, 5);
}

/// The two-cell final clusters, read in Unicode order.
pub proof fn lemma_double_finals_follow_the_table(a: u8, b: u8)
    ensures
        spec_double_jongseong(a, b) is Some <==> table_pair(double_final_table(), a, b, 12) is Some,
        spec_double_jongseong(a, b) matches Some(i) ==> 1 <= i <= 27 && finals_order()[i - 1]
            == table_pair(double_final_table(), a, b, 12)->0,
{
    reveal_with_fuel(table_pair, 13);
}

/// The two-cell abbreviations 성 정 청 것.
pub proof fn lemma_two_cell_syllables_follow_the_table(cells: Seq<u8>, index: int)
    requires
        0 <= index && index + 1 < cells.len(),
    ensures
        spec_two_cell_shortcut(cells, index) is Some <==> table_pair(
            two_cell_syllable_table(),
            cells[index],
            cells[index + 1],
            4,
        ) is Some,
        spec_two_cell_shortcut(cells, index) matches Some((c, n)) ==> n == 2 && c == table_pair(
            two_cell_syllable_table(),
            cells[index],
            cells[index + 1],
            4,
        )->0,
{
    reveal_with_fuel(table_pair, 5);
}

/// Each one-cell syllable abbreviation stands for its syllable of the
/// table, with the initial ㅇ.
pub proof fn lemma_syllable_abbreviations_follow_the_table(cell: u8)
    ensures
        spec_syllable_shortcut(cell) is Some <==> table_jamo(syllable_abbreviation_table(), cell, 14) is Some,
        spec_syllable_shortcut(cell) matches Some((ju, jo)) ==> spec_syllable(11, ju, jo)
            == table_jamo(syllable_abbreviation_table(), cell, 14)->0,
{
    reveal_with_fuel(table_jamo, 15);
}

/// ⠫ and ⠇ stand for 가 and 사: an initial with the vowel ㅏ.
pub proof fn lemma_consonant_a_abbreviations(cell: u8)
    ensures
        spec_consonant_a_shortcut(cell) is Some <==> (cell == 43 || cell == 7),
        cell == 43 ==> spec_syllable(spec_consonant_a_shortcut(cell)->0, 0, 0) == '가',
        cell == 7 ==> spec_syllable(spec_consonant_a_shortcut(cell)->0, 0, 0) == '사',
{
}

/// Two-cell vowels: a vowel cell followed by `23`.
pub open spec fn spec_double_jungseong(first: u8) -> Option<u32> {
    if first == 13 { Some(16u32) }
    else if first == 28 { Some(3u32) }
    else if first == 39 { Some(10u32) }
    else if first == 15 { Some(15u32) }
    else { None }
}

/// A vowel at `index`: a two-cell vowel first, then a single cell.
pub open spec fn spec_jungseong(cells: Seq<u8>, index: int) -> Option<(u32, usize)> {
    if 0 <= index && index < cells.len() {
        let first = cells[index];
        if index + 1 < cells.len() && cells[index + 1] == 23
            && spec_double_jungseong(first) is Some {
            Some((spec_double_jungseong(first)->0, 2usize))
        } else {
            match spec_single_jungseong(first) {
                Some(value) => Some((value, 1usize)),
                None => None,
            }
        }
    } else {
        None
    }
}

/// Two-cell final consonant clusters (final index in Unicode order).
pub open spec fn spec_double_jongseong(first: u8, second: u8) -> Option<u32> {
    if first == 1 && second == 1 { Some(2u32) }
    else if first == 1 && second == 4 { Some(3u32) }
    else if first == 18 && second == 5 { Some(5u32) }
    else if first == 18 && second == 52 { Some(6u32) }
    else if first == 2 && second == 1 { Some(9u32) }
    else if first == 2 && second == 34 { Some(10u32) }
    else if first == 2 && second == 3 { Some(11u32) }
    else if first == 2 && second == 4 { Some(12u32) }
    else if first == 2 && second == 38 { Some(13u32) }
    else if first == 2 && second == 50 { Some(14u32) }
    else if first == 2 && second == 52 { Some(15u32) }
    else if first == 3 && second == 4 { Some(18u32) }
    else { None }
}

/// Single-cell final consonants (final index in Unicode order).
pub open spec fn spec_single_jongseong(cell: u8) -> Option<u32> {
    if cell == 1 { Some(1u32) }
    else if cell == 18 { Some(4u32) }
    else if cell == 20 { Some(7u32) }
    else if cell == 2 { Some(8u32) }
    else if cell == 34 { Some(16u32) }
    else if cell == 3 { Some(17u32) }
    else if cell == 4 { Some(19u32) }
    else if cell == 12 { Some(20u32) }
    else if cell == 54 { Some(21u32) }
    else if cell == 5 { Some(22u32) }
    else if cell == 6 { Some(23u32) }
    else if cell == 22 { Some(24u32) }
    else if cell == 38 { Some(25u32) }
    else if cell == 50 { Some(26u32) }
    else if cell == 52 { Some(27u32) }
    else { None }
}

/// A final consonant at `index` as (final index, cells used); `(0, 0)` when
/// there is none.
pub open spec fn spec_jongseong(cells: Seq<u8>, index: int) -> (u32, usize) {
    if 0 <= index && index < cells.len() {
        let first = cells[index];
        if index + 1 < cells.len() && spec_double_jongseong(first, cells[index + 1]) is Some {
            (spec_double_jongseong(first, cells[index + 1])->0, 2usize)
        } else {
            match spec_single_jongseong(first) {
                Some(value) => (value, 1usize),
                None => (0u32, 0usize),
            }
        }
    } else {
        (0u32, 0usize)
    }
}

/// What one step of the decoder at `index` writes, the stage it moves to,
/// and the index it continues from.
pub open spec fn spec_step(cells: Seq<u8>, index: int, stage: Stage) -> (Seq<char>, Stage, int) {
    let cell = cells[index];
    match stage {
        Stage::Start => {
            if cell == 0 {
                (seq![' '], Stage::Start, index + 1)
            } else if spec_two_cell_shortcut(cells, index) is Some {
                let (c, n) = spec_two_cell_shortcut(cells, index)->0;
                (seq![c], Stage::Start, index + n)
            } else if spec_syllable_shortcut(cell) is Some {
                let (ju, jo) = spec_syllable_shortcut(cell)->0;
                (seq![spec_syllable(11, ju, jo)], Stage::Start, index + 1)
            } else if spec_consonant_a_shortcut(cell) is Some {
                (Seq::empty(), Stage::GotJungseong(spec_consonant_a_shortcut(cell)->0, 0), index + 1)
            } else if spec_jungseong(cells, index) is Some {
                let (ju, n) = spec_jungseong(cells, index)->0;
                (Seq::empty(), Stage::GotJungseong(11, ju), index + n)
            } else if spec_choseong(cells, index) is Some {
                let (ch, n) = spec_choseong(cells, index)->0;
                (Seq::empty(), Stage::GotChoseong(ch), index + n)
            } else {
                (Seq::empty(), Stage::Start, index + 1)
            }
        },
        Stage::GotChoseong(ch) => {
            if spec_jungseong(cells, index) is Some {
                let (ju, n) = spec_jungseong(cells, index)->0;
                (Seq::empty(), Stage::GotJungseong(ch, ju), index + n)
            } else if spec_syllable_shortcut(cell) is Some {
                let (ju, jo) = spec_syllable_shortcut(cell)->0;
                (seq![spec_syllable(ch, ju, jo)], Stage::Start, index + 1)
            } else if cell == 0 {
                (seq![spec_choseong_jamo(ch), ' '], Stage::Start, index + 1)
            } else {
                (Seq::empty(), Stage::GotJungseong(ch, 0), index)
            }
        },
        Stage::GotJungseong(ch, ju) => {
            let open = spec_syllable(ch, ju, 0);
            if spec_two_cell_shortcut(cells, index) is Some {
                let (c, n) = spec_two_cell_shortcut(cells, index)->0;
                (seq![open, c], Stage::Start, index + n)
            } else if spec_jongseong(cells, index).0 >= 1 {
                let (jo, n) = spec_jongseong(cells, index);
                (seq![spec_syllable(ch, ju, jo)], Stage::Start, index + n)
            } else if cell == 0 {
                (seq![open, ' '], Stage::Start, index + 1)
            } else if spec_syllable_shortcut(cell) is Some {
                let (nju, njo) = spec_syllable_shortcut(cell)->0;
                (seq![open, spec_syllable(11, nju, njo)], Stage::Start, index + 1)
            } else if spec_consonant_a_shortcut(cell) is Some {
                (seq![open], Stage::GotJungseong(spec_consonant_a_shortcut(cell)->0, 0), index + 1)
            } else if spec_choseong(cells, index) is Some {
                let (nch, n) = spec_choseong(cells, index)->0;
                (seq![open], Stage::GotChoseong(nch), index + n)
            } else if spec_jungseong(cells, index) is Some {
                let (nju, n) = spec_jungseong(cells, index)->0;
                (seq![open], Stage::GotJungseong(11, nju), index + n)
            } else {
                (seq![open], Stage::Start, index + 1)
            }
        },
    }
}

/// What the decoder writes at the end of the cells: the syllable that is
/// still open, if any.
pub open spec fn spec_finish(stage: Stage) -> Seq<char> {
    match stage {
        Stage::GotChoseong(ch) => seq![spec_syllable(ch, 0, 0)],
        Stage::GotJungseong(ch, ju) => seq![spec_syllable(ch, ju, 0)],
        Stage::Start => Seq::empty(),
    }
}

pub open spec fn stage_rank(stage: Stage) -> int {
    match stage {
        Stage::GotChoseong(_) => 1,
        _ => 0,
    }
}

/// Everything the decoder writes from `index` on, in `stage`, before
/// trimming.
pub open spec fn spec_run(cells: Seq<u8>, index: int, stage: Stage) -> Seq<char>
    decreases cells.len() - index, stage_rank(stage),
{
    if index < 0 || index >= cells.len() {
        spec_finish(stage)
    } else {
        let (out, next, next_index) = spec_step(cells, index, stage);
        out + spec_run(cells, next_index, next)
    }
}

/// A sequence without its leading and trailing spaces.
pub open spec fn spec_trim_spaces(s: Seq<char>) -> Seq<char>
    decreases s.len(),
{
    if s.len() == 0 {
        s
    } else if s[0] == ' ' {
        spec_trim_spaces(s.drop_first())
    } else if s.last() == ' ' {
        spec_trim_spaces(s.drop_last())
    } else {
        s
    }
}

/// The text that a sequence of cells decodes to.
pub open spec fn spec_decode_cells(cells: Seq<u8>) -> Seq<char> {
    spec_trim_spaces(spec_run(cells, 0, Stage::Start))
}

/// The text that a braille string decodes to.
pub open spec fn spec_decode(braille: Seq<char>) -> Seq<char> {
    spec_decode_cells(spec_cells_of(braille))
}

/// Decodes Unicode braille into Hangul text. Braille pattern characters are
/// read as cells, a space or line break as a blank cell, and every other
/// character is skipped; the result never fails.
pub fn decode(braille: &str) -> (r: Result<String, String>)
    ensures
        r is Ok,
        r matches Ok(text) ==> text@ == spec_decode(braille@),
{
    let mut cells: Vec<u8> = Vec::new();
    for character in it: braille.chars()
        invariant
            it.seq() == braille@,
            cells@ == spec_cells_of(it.seq().take(it.index() as int)),
    {
        proof {
            let s = it.seq().take(it.index() + 1);
            assert(s.drop_last() == it.seq().take(it.index() as int));
        }
        let code = character as u32;
        if 0x2800 <= code && code <= 0x28ff {
            cells.push((code - 0x2800) as u8);
        } else if character == ' ' || character == '\n' {
            cells.push(0);
        }
    }
    proof {
        assert(braille@.take(braille@.len() as int) == braille@);
    }
    let text = decode_cells(cells.as_slice());
    Ok(text)
}

pub open spec fn stage_ok(stage: Stage) -> bool {
    match stage {
        Stage::Start => true,
        Stage::GotChoseong(ch) => ch < 19,
        Stage::GotJungseong(ch, ju) => ch < 19 && ju < 21,
    }
}

fn decode_cells(cells: &[u8]) -> (r: String)
    ensures
        r@ == spec_decode_cells(cells@),
        r@.len() <= cells@.len(),
        forall|k: int| 0 <= k < r@.len() ==> is_decoded_char(#[trigger] r@[k]),
        r@.len() == 0 || (r@[0] != ' ' && r@.last() != ' '),
{
    proof {
        lemma_decode_cells_length(cells@);
        lemma_decode_cells_shape(cells@);
    }
    let mut result: Vec<char> = Vec::new();
    let mut index: usize = 0;
    let mut stage = Stage::Start;

    while index < cells.len()
        invariant
            index <= cells@.len(),
            stage_ok(stage),
            result@ + spec_run(cells@, index as int, stage) == spec_run(cells@, 0, Stage::Start),
        decreases cells@.len() - index, stage_rank(stage),
    {
        let ghost old_result = result@;
        let ghost old_index = index as int;
        let ghost old_stage = stage;
        let cell = cells[index];

        match stage {
            Stage::Start => {
                if cell == 0 {
                    result.push(' ');
                    index += 1;
                } else if let Some((character, consumed)) = two_cell_shortcut(cells, index) {
                    result.push(character);
                    index += consumed;
                } else if let Some((jungseong, jongseong)) = syllable_shortcut(cell) {
                    result.push(build_syllable(11, jungseong, jongseong));
                    index += 1;
                } else if let Some(choseong) = consonant_a_shortcut(cell) {
                    stage = Stage::GotJungseong(choseong, 0);
                    index += 1;
                } else if let Some((jungseong, consumed)) = jungseong(cells, index) {
                    stage = Stage::GotJungseong(11, jungseong);
                    index += consumed;
                } else if let Some((choseong, consumed)) = choseong(cells, index) {
                    stage = Stage::GotChoseong(choseong);
                    index += consumed;
                } else {
                    index += 1;
                }
            },
            Stage::GotChoseong(choseong) => {
                if let Some((jungseong, consumed)) = jungseong(cells, index) {
                    stage = Stage::GotJungseong(choseong, jungseong);
                    index += consumed;
                } else if let Some((jungseong, jongseong)) = syllable_shortcut(cell) {
                    result.push(build_syllable(choseong, jungseong, jongseong));
                    stage = Stage::Start;
                    index += 1;
                } else if cell == 0 {
                    result.push(choseong_jamo(choseong));
                    result.push(' ');
                    stage = Stage::Start;
                    index += 1;
                } else {
                    // Several choseong cells also abbreviate the syllable with ㅏ.
                    stage = Stage::GotJungseong(choseong, 0);
                }
            },
            Stage::GotJungseong(choseong_index, jungseong_index) => {
                if let Some((character, consumed)) = two_cell_shortcut(cells, index) {
                    result.push(build_syllable(choseong_index, jungseong_index, 0));
                    result.push(character);
                    stage = Stage::Start;
                    index += consumed;
                } else {
                    let (jongseong, consumed) = jongseong(cells, index);
                    if jongseong >= 1 {
                        result.push(build_syllable(choseong_index, jungseong_index, jongseong));
                        stage = Stage::Start;
                        index += consumed;
                    } else if cell == 0 {
                        result.push(build_syllable(choseong_index, jungseong_index, 0));
                        result.push(' ');
                        stage = Stage::Start;
                        index += 1;
                    } else if let Some((next_jungseong, next_jongseong)) = syllable_shortcut(cell) {
                        result.push(build_syllable(choseong_index, jungseong_index, 0));
                        result.push(build_syllable(11, next_jungseong, next_jongseong));
                        stage = Stage::Start;
                        index += 1;
                    } else if let Some(next_choseong) = consonant_a_shortcut(cell) {
                        result.push(build_syllable(choseong_index, jungseong_index, 0));
                        stage = Stage::GotJungseong(next_choseong, 0);
                        index += 1;
                    } else if let Some((next_choseong, consumed)) = choseong(cells, index) {
                        result.push(build_syllable(choseong_index, jungseong_index, 0));
                        stage = Stage::GotChoseong(next_choseong);
                        index += consumed;
                    } else if let Some((next_jungseong, consumed)) = jungseong(cells, index) {
                        result.push(build_syllable(choseong_index, jungseong_index, 0));
                        stage = Stage::GotJungseong(11, next_jungseong);
                        index += consumed;
                    } else {
                        result.push(build_syllable(choseong_index, jungseong_index, 0));
                        stage = Stage::Start;
                        index += 1;
                    }
                }
            },
        }
        proof {
            let (out, next, next_index) = spec_step(cells@, old_index, old_stage);
            assert(result@ == old_result + out);
            assert(stage == next && index == next_index);
            assert(spec_run(cells@, old_index, old_stage) == out + spec_run(cells@, next_index, next));
            assert(old_result + (out + spec_run(cells@, next_index, next))
                == (old_result + out) + spec_run(cells@, next_index, next));
        }
    }

    match stage {
        Stage::GotChoseong(choseong) => result.push(build_syllable(choseong, 0, 0)),
        Stage::GotJungseong(choseong, jungseong) => {
            result.push(build_syllable(choseong, jungseong, 0));
        },
        Stage::Start => {},
    }
    assert(result@ == spec_run(cells@, 0, Stage::Start));
    let trimmed = trim_spaces(&result);
    string_from_chars(&trimmed)
}

fn trim_spaces(chars: &Vec<char>) -> (r: Vec<char>)
    ensures
        r@ == spec_trim_spaces(chars@),
{
    let mut start: usize = 0;
    let mut end: usize = chars.len();
    assert(chars@.subrange(0, chars@.len() as int) == chars@);
    while start < end && (chars[start] == ' ' || chars[end - 1] == ' ')
        invariant
            start <= end <= chars@.len(),
            spec_trim_spaces(chars@.subrange(start as int, end as int)) == spec_trim_spaces(chars@),
        decreases end - start,
    {
        let ghost s = chars@.subrange(start as int, end as int);
        if chars[start] == ' ' {
            assert(s.drop_first() == chars@.subrange(start + 1, end as int));
            start += 1;
        } else {
            assert(s.drop_last() == chars@.subrange(start as int, end - 1));
            end -= 1;
        }
    }
    let mut out: Vec<char> = Vec::new();
    let mut i: usize = start;
    while i < end
        invariant
            start <= i <= end <= chars@.len(),
            out@ == chars@.subrange(start as int, i as int),
        decreases end - i,
    {
        out.push(chars[i]);
        i += 1;
        assert(out@ == chars@.subrange(start as int, i as int));
    }
    proof {
        let s = chars@.subrange(start as int, end as int);
        assert(spec_trim_spaces(s) == s);
        assert(chars@.subrange(0, chars@.len() as int) == chars@);
    }
    out
}

fn two_cell_shortcut(cells: &[u8], index: usize) -> (r: Option<(char, usize)>)
    ensures
        r == spec_two_cell_shortcut(cells@, index as int),
{
    if index >= cells.len() || cells.len() - index < 2 {
        return None;
    }
    match (cells[index], cells[index + 1]) {
        (32, 59) => Some(('성', 2)),
        (40, 59) => Some(('정', 2)),
        (48, 59) => Some(('청', 2)),
        (56, 14) => Some(('것', 2)),
        _ => None,
    }
}

fn syllable_shortcut(cell: u8) -> (r: Option<(u32, u32)>)
    ensures
        r == spec_syllable_shortcut(cell),
{
    match cell {
        57 => Some((4, 1)),
        62 => Some((4, 4)),
        30 => Some((4, 8)),
        33 => Some((6, 4)),
        51 => Some((6, 8)),
        59 => Some((6, 21)),
        45 => Some((8, 1)),
        55 => Some((8, 4)),
        63 => Some((8, 21)),
        27 => Some((13, 4)),
        47 => Some((13, 8)),
        53 => Some((18, 4)),
        46 => Some((18, 8)),
        31 => Some((20, 4)),
        _ => None,
    }
}

fn consonant_a_shortcut(cell: u8) -> (r: Option<u32>)
    ensures
        r == spec_consonant_a_shortcut(cell),
{
    match cell {
        43 => Some(0),
        7 => Some(9),
        _ => None,
    }
}

fn single_choseong(cell: u8) -> (r: Option<u32>)
    ensures
        r == spec_single_choseong(cell),
{
    match cell {
        8 => Some(0),
        9 => Some(2),
        10 => Some(3),
        11 => Some(15),
        16 => Some(5),
        17 => Some(6),
        19 => Some(16),
        24 => Some(7),
        25 => Some(17),
        26 => Some(18),
        32 => Some(9),
        40 => Some(12),
        48 => Some(14),
        _ => None,
    }
}

fn choseong(cells: &[u8], index: usize) -> (r: Option<(u32, usize)>)
    ensures
        r == spec_choseong(cells@, index as int),
{
    if index >= cells.len() {
        return None;
    }
    let first = cells[index];
    if first == 32 && cells.len() - index >= 2 {
        let second = cells[index + 1];
        let tense = match second {
            8 | 43 => Some(1),
            10 => Some(4),
            24 => Some(8),
            7 | 32 => Some(10),
            40 => Some(13),
            _ => None,
        };
        if let Some(value) = tense {
            return Some((value, 2));
        }
    }
    match single_choseong(first) {
        Some(value) => Some((value, 1)),
        None => None,
    }
}

fn jungseong(cells: &[u8], index: usize) -> (r: Option<(u32, usize)>)
    ensures
        r == spec_jungseong(cells@, index as int),
{
    if index >= cells.len() {
        return None;
    }
    let first = cells[index];
    if cells.len() - index >= 2 && cells[index + 1] == 23 {
        match first {
            13 => return Some((16, 2)),
            28 => return Some((3, 2)),
            39 => return Some((10, 2)),
            15 => return Some((15, 2)),
            _ => {},
        }
    }
    let value = match first {
        35 => 0,
        23 => 1,
        28 => 2,
        14 => 4,
        29 => 5,
        49 => 6,
        12 => 7,
        37 => 8,
        39 => 9,
        61 => 11,
        44 => 12,
        13 => 13,
        15 => 14,
        41 => 17,
        42 => 18,
        58 => 19,
        21 => 20,
        _ => return None,
    };
    Some((value, 1))
}

fn jongseong(cells: &[u8], index: usize) -> (r: (u32, usize))
    ensures
        r == spec_jongseong(cells@, index as int),
{
    if index >= cells.len() {
        return (0, 0);
    }
    let first = cells[index];
    if cells.len() - index >= 2 {
        let second = cells[index + 1];
        match (first, second) {
            (1, 1) => return (2, 2),
            (1, 4) => return (3, 2),
            (18, 5) => return (5, 2),
            (18, 52) => return (6, 2),
            (2, 1) => return (9, 2),
            (2, 34) => return (10, 2),
            (2, 3) => return (11, 2),
            (2, 4) => return (12, 2),
            (2, 38) => return (13, 2),
            (2, 50) => return (14, 2),
            (2, 52) => return (15, 2),
            (3, 4) => return (18, 2),
            _ => {},
        }
    }
    let value = match first {
        1 => 1,
        18 => 4,
        20 => 7,
        2 => 8,
        34 => 16,
        3 => 17,
        4 => 19,
        12 => 20,
        54 => 21,
        5 => 22,
        6 => 23,
        22 => 24,
        38 => 25,
        50 => 26,
        52 => 27,
        _ => return (0, 0),
    };
    (value, 1)
}

fn build_syllable(choseong: u32, jungseong: u32, jongseong: u32) -> (r: char)
    requires
        choseong < 19,
        jungseong < 21,
        jongseong < 28,
    ensures
        r == spec_syllable(choseong, jungseong, jongseong),
        is_hangul_syllable(r),
        (r as u32 - 0xac00) / 588 == choseong,
        ((r as u32 - 0xac00) % 588) / 28 == jungseong,
        (r as u32 - 0xac00) % 28 == jongseong,
{
    proof {
        lemma_syllable_decomposes(choseong, jungseong, jongseong);
    }
    let code = (choseong * 21 + jungseong) * 28 + jongseong + 0xac00;
    match crate::text::char_from_u32(code) {
        Some(c) => c,
        None => '?',
    }
}

fn choseong_jamo(index: u32) -> (r: char)
    ensures
        r == spec_choseong_jamo(index),
{
    match index {
        0 => 'ㄱ',
        1 => 'ㄲ',
        2 => 'ㄴ',
        3 => 'ㄷ',
        4 => 'ㄸ',
        5 => 'ㄹ',
        6 => 'ㅁ',
        7 => 'ㅂ',
        8 => 'ㅃ',
        9 => 'ㅅ',
        10 => 'ㅆ',
        11 => 'ㅇ',
        12 => 'ㅈ',
        13 => 'ㅉ',
        14 => 'ㅊ',
        15 => 'ㅋ',
        16 => 'ㅌ',
        17 => 'ㅍ',
        18 => 'ㅎ',
        _ => '?',
    }
}



/// A character that the decoder can write: a Hangul syllable, an initial
/// consonant standing alone, or a space between words.
pub open spec fn is_decoded_char(c: char) -> bool {
    c == ' ' || is_hangul_syllable(c) || is_choseong_jamo(c)
}

proof fn lemma_run_chars(cells: Seq<u8>, index: int, stage: Stage)
    requires
        stage_ok(stage),
    ensures
        forall|k: int| 0 <= k < spec_run(cells, index, stage).len()
            ==> is_decoded_char(#[trigger] spec_run(cells, index, stage)[k]),
    decreases cells.len() - index, stage_rank(stage),
{
    if index < 0 || index >= cells.len() {
    } else {
        let (out, next, next_index) = spec_step(cells, index, stage);
        assert(stage_ok(next));
        assert forall|k: int| 0 <= k < out.len() implies is_decoded_char(#[trigger] out[k]) by {
            match stage {
                Stage::GotChoseong(ch) => {
                    if spec_jungseong(cells, index) is None && spec_syllable_shortcut(cells[index]) is None
                        && cells[index] == 0 && k == 0 {
                        assert(spec_choseong_jamo(ch) == out[k]);
                    }
                },
                _ => {},
            }
        }
        lemma_run_chars(cells, next_index, next);
        let rest = spec_run(cells, next_index, next);
        assert(spec_run(cells, index, stage) == out + rest);
        assert forall|k: int| 0 <= k < (out + rest).len() implies is_decoded_char(#[trigger] (out + rest)[k]) by {
            if k >= out.len() {
                assert((out + rest)[k] == rest[k - out.len()]);
            }
        }
    }
}

proof fn lemma_trim_spaces(s: Seq<char>)
    ensures
        spec_trim_spaces(s).len() == 0 || (spec_trim_spaces(s)[0] != ' '
            && spec_trim_spaces(s).last() != ' '),
        forall|k: int| 0 <= k < spec_trim_spaces(s).len()
            ==> exists|j: int| 0 <= j < s.len() && s[j] == #[trigger] spec_trim_spaces(s)[k],
    decreases s.len(),
{
    if s.len() == 0 {
    } else if s[0] == ' ' {
        lemma_trim_spaces(s.drop_first());
        let t = spec_trim_spaces(s);
        assert forall|k: int| 0 <= k < t.len() implies exists|j: int| 0 <= j < s.len() && s[j] == #[trigger] t[k] by {
            let j = choose|j: int| 0 <= j < s.drop_first().len() && s.drop_first()[j] == t[k];
            assert(s[j + 1] == t[k]);
        }
    } else if s.last() == ' ' {
        lemma_trim_spaces(s.drop_last());
        let t = spec_trim_spaces(s);
        assert forall|k: int| 0 <= k < t.len() implies exists|j: int| 0 <= j < s.len() && s[j] == #[trigger] t[k] by {
            let j = choose|j: int| 0 <= j < s.drop_last().len() && s.drop_last()[j] == t[k];
            assert(s[j] == t[k]);
        }
    } else {
        assert forall|k: int| 0 <= k < s.len() implies exists|j: int| 0 <= j < s.len() && s[j] == #[trigger] s[k] by {
            assert(s[k] == s[k]);
        }
    }
}

/// Whatever the cells, their decoded text holds only Hangul syllables,
/// initial consonants standing alone and spaces, and neither starts nor ends
/// with a space.
pub proof fn lemma_decode_cells_shape(cells: Seq<u8>)
    ensures
        forall|k: int| 0 <= k < spec_decode_cells(cells).len()
            ==> is_decoded_char(#[trigger] spec_decode_cells(cells)[k]),
        spec_decode_cells(cells).len() == 0 || (spec_decode_cells(cells)[0] != ' '
            && spec_decode_cells(cells).last() != ' '),
{
    let run = spec_run(cells, 0, Stage::Start);
    lemma_run_chars(cells, 0, Stage::Start);
    lemma_trim_spaces(run);
    let t = spec_trim_spaces(run);
    assert forall|k: int| 0 <= k < t.len() implies is_decoded_char(#[trigger] t[k]) by {
        let j = choose|j: int| 0 <= j < run.len() && run[j] == t[k];
        assert(is_decoded_char(run[j]));
    }
}

/// Whatever the input, the decoded text holds only Hangul syllables,
/// initial consonants standing alone and spaces, and neither starts nor ends
/// with a space.
pub proof fn lemma_decode_output_shape(braille: Seq<char>)
    ensures
        forall|k: int| 0 <= k < spec_decode(braille).len()
            ==> is_decoded_char(#[trigger] spec_decode(braille)[k]),
        spec_decode(braille).len() == 0 || (spec_decode(braille)[0] != ' '
            && spec_decode(braille).last() != ' '),
{
    lemma_decode_cells_shape(spec_cells_of(braille));
}

/// The characters that a stage still owes: the open syllable.
pub open spec fn pending(stage: Stage) -> int {
    match stage {
        Stage::Start => 0,
        _ => 1,
    }
}

proof fn lemma_run_length(cells: Seq<u8>, index: int, stage: Stage)
    requires
        0 <= index <= cells.len(),
    ensures
        spec_run(cells, index, stage).len() <= cells.len() - index + pending(stage),
    decreases cells.len() - index, stage_rank(stage),
{
    if index < cells.len() {
        let (out, next, next_index) = spec_step(cells, index, stage);
        assert(index <= next_index <= cells.len());
        assert(out.len() + pending(next) <= next_index - index + pending(stage));
        lemma_run_length(cells, next_index, next);
    }
}

proof fn lemma_trim_length(s: Seq<char>)
    ensures
        spec_trim_spaces(s).len() <= s.len(),
    decreases s.len(),
{
    if s.len() > 0 {
        if s[0] == ' ' {
            lemma_trim_length(s.drop_first());
        } else if s.last() == ' ' {
            lemma_trim_length(s.drop_last());
        }
    }
}

/// Every cell gives at most one character: the decoded text is never
/// longer than the cells.
pub proof fn lemma_decode_cells_length(cells: Seq<u8>)
    ensures
        spec_decode_cells(cells).len() <= cells.len(),
{
    lemma_run_length(cells, 0, Stage::Start);
    lemma_trim_length(spec_run(cells, 0, Stage::Start));
}

/// The composition formula inverts: a syllable built from an initial,
/// medial and final index lies in the Hangul syllable block, and dividing its
/// offset from U+AC00 by 588 and 28 gives the three indices back.
pub proof fn lemma_syllable_decomposes(choseong: u32, jungseong: u32, jongseong: u32)
    requires
        choseong < 19,
        jungseong < 21,
        jongseong < 28,
    ensures
        is_hangul_syllable(spec_syllable(choseong, jungseong, jongseong)),
        ({
            let u = spec_syllable(choseong, jungseong, jongseong) as u32 - 0xac00;
            &&& u / 588 == choseong
            &&& (u % 588) / 28 == jungseong
            &&& u % 28 == jongseong
        }),
{
    let u = (choseong * 21 + jungseong) * 28 + jongseong;
    assert(0 <= u <= 11171 && u == choseong * 588 + jungseong * 28 + jongseong) by (nonlinear_arith)
        requires
            choseong < 19,
            jungseong < 21,
            jongseong < 28,
            u == (choseong * 21 + jungseong) * 28 + jongseong,
    ;
    assert(u / 588 == choseong && u % 588 == jungseong * 28 + jongseong) by (nonlinear_arith)
        requires
            jungseong < 21,
            jongseong < 28,
            u == choseong * 588 + jungseong * 28 + jongseong,
    ;
    assert((jungseong * 28 + jongseong) / 28 == jungseong && (jungseong * 28 + jongseong) % 28
        == jongseong) by (nonlinear_arith)
        requires
            jongseong < 28,
    ;
    assert(u % 28 == jongseong) by (nonlinear_arith)
        requires
            jongseong < 28,
            u == choseong * 588 + jungseong * 28 + jongseong,
    ;
}

proof fn lemma_cells_of_concat(a: Seq<char>, b: Seq<char>)
    ensures
        spec_cells_of(a + b) == spec_cells_of(a) + spec_cells_of(b),
    decreases b.len(),
{
    if b.len() == 0 {
        assert(a + b == a);
        assert(spec_cells_of(b) == Seq::<u8>::empty());
        assert(spec_cells_of(a) + Seq::<u8>::empty() == spec_cells_of(a));
    } else {
        lemma_cells_of_concat(a, b.drop_last());
        assert((a + b).drop_last() == a + b.drop_last());
        assert((a + b).last() == b.last());
        match spec_cell_of_char(b.last()) {
            Some(cell) => {
                assert(spec_cells_of(a) + spec_cells_of(b.drop_last()).push(cell)
                    == (spec_cells_of(a) + spec_cells_of(b.drop_last())).push(cell));
            },
            None => {},
        }
    }
}

proof fn lemma_cells_of_single(c: char)
    ensures
        spec_cells_of(seq![c]) == match spec_cell_of_char(c) {
            Some(cell) => seq![cell],
            None => Seq::<u8>::empty(),
        },
{
    assert(seq![c].drop_last() == Seq::<char>::empty());
    assert(spec_cells_of(Seq::<char>::empty()) == Seq::<u8>::empty());
    assert(seq![c].last() == c);
    match spec_cell_of_char(c) {
        Some(cell) => {
            assert(Seq::<u8>::empty().push(cell) == seq![cell]);
        },
        None => {},
    }
}

/// A character that is neither a braille pattern nor a space or line break
/// is skipped: removing it does not change the decoded text.
pub proof fn lemma_decode_skips_other_chars(before: Seq<char>, c: char, after: Seq<char>)
    requires
        spec_cell_of_char(c) is None,
    ensures
        spec_decode(before + seq![c] + after) == spec_decode(before + after),
{
    lemma_cells_of_concat(before + seq![c], after);
    lemma_cells_of_concat(before, seq![c]);
    lemma_cells_of_concat(before, after);
    lemma_cells_of_single(c);
    assert(spec_cells_of(before) + Seq::<u8>::empty() == spec_cells_of(before));
}

/// The input as the decoder reads it: the braille pattern characters, with
/// each space or line break written as the blank pattern U+2800 and every
/// other character left out.
pub open spec fn spec_braille_only(s: Seq<char>) -> Seq<char>
    decreases s.len(),
{
    if s.len() == 0 {
        Seq::empty()
    } else {
        let rest = spec_braille_only(s.drop_last());
        let c = s.last();
        if 0x2800 <= c as u32 && c as u32 <= 0x28ff {
            rest.push(c)
        } else if c == ' ' || c == '\n' {
            rest.push('\u{2800}')
        } else {
            rest
        }
    }
}

proof fn lemma_braille_only_cells(s: Seq<char>)
    ensures
        spec_cells_of(spec_braille_only(s)) == spec_cells_of(s),
    decreases s.len(),
{
    if s.len() > 0 {
        lemma_braille_only_cells(s.drop_last());
        let rest = spec_braille_only(s.drop_last());
        let c = s.last();
        if 0x2800 <= c as u32 && c as u32 <= 0x28ff {
            assert(rest.push(c).drop_last() == rest);
        } else if c == ' ' || c == '\n' {
            assert(rest.push('\u{2800}').drop_last() == rest);
        }
    }
}

/// Decoding reads the braille pattern characters alone: dropping every
/// other character and writing each space or line break as the blank
/// pattern U+2800 does not change the decoded text.
pub proof fn lemma_decode_reads_braille_only(braille: Seq<char>)
    ensures
        spec_decode(braille) == spec_decode(spec_braille_only(braille)),
{
    lemma_braille_only_cells(braille);
}

/// A space, a line break and the blank braille pattern U+2800 all stand for
/// the blank cell: exchanging one for another does not change the decoded
/// text.
pub proof fn lemma_decode_blank_forms(before: Seq<char>, after: Seq<char>)
    ensures
        spec_decode(before + seq![' '] + after) == spec_decode(before + seq!['\n'] + after),
        spec_decode(before + seq![' '] + after) == spec_decode(before + seq!['\u{2800}'] + after),
{
    lemma_cells_of_concat(before + seq![' '], after);
    lemma_cells_of_concat(before, seq![' ']);
    lemma_cells_of_concat(before + seq!['\n'], after);
    lemma_cells_of_concat(before, seq!['\n']);
    lemma_cells_of_concat(before + seq!['\u{2800}'], after);
    lemma_cells_of_concat(before, seq!['\u{2800}']);
    lemma_cells_of_single(' ');
    lemma_cells_of_single('\n');
    lemma_cells_of_single('\u{2800}');
}

} // verus!
