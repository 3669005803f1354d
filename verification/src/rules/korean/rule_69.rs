//! 제69항 — measurement and scientific unit symbols: single unit symbols
//! (Ω, %, °, ℃, ...), Roman unit spellings after a number (`180cm`), the
//! micro sign, and the square compatibility glyphs of Roman units (`㎏`).
use vstd::prelude::*;

use unicode_normalization::UnicodeNormalization;

use crate::char_struct::CharType;
use crate::english_logic::{should_skip_terminator_for_symbol, spec_skips_terminator};
use crate::number::{encode_number, spec_digit_cell};
use crate::rules::context::{output_of, RuleContext};
use crate::rules::english_ueb::{encode_korean_word, spec_encode_korean_word};
use crate::rules::korean::rule_28::alpha_run_end;
use crate::rules::korean::rule_29::{ENGLISH_CONTINUATION, ROMAN_INDICATOR};
use crate::rules::korean::rule_68::{is_rule_68_symbol, spec_is_rule_68_symbol};
use crate::rules::traits::{BrailleRule, Phase, RuleResult};
use crate::rules::RuleMeta;
use crate::unicode::{decode_unicode, is_braille_char, spec_decode_unicode};
use crate::utils::{
    is_ascii_alphabetic, is_ascii_digit, is_korean_char, spec_is_ascii_alphabetic,
    spec_is_ascii_digit, spec_is_korean_char, all_ascii_alphabetic,
};

verus! {

pub fn meta() -> (r: RuleMeta)
    ensures
        r.section@ == "69"@,
        r.subsection is None,
        r.name@ == "measurement_symbols"@,
        r.standard_ref@ == "2024 Korean Braille Standard, Ch.6 Art.69"@,
        r.description@ == "Measurement and scientific unit symbols"@,
{
    RuleMeta {
        section: "69",
        subsection: None,
        name: "measurement_symbols",
        standard_ref: "2024 Korean Braille Standard, Ch.6 Art.69",
        description: "Measurement and scientific unit symbols",
    }
}

/// Roman terminator ⠲ that closes a Roman unit.
pub open spec fn terminator() -> u8 {
    50
}

/// The cells of a string of braille pattern characters.
pub open spec fn spec_cells(s: Seq<char>) -> Seq<u8> {
    s.map_values(|c: char| spec_decode_unicode(c))
}

pub open spec fn all_braille(s: Seq<char>) -> bool {
    forall|i: int| 0 <= i < s.len() ==> is_braille_char(#[trigger] s[i])
}

/// The cells of a string of braille pattern characters.
pub fn encode_unicode_cells(unicode: &str) -> (r: Vec<u8>)
    requires
        all_braille(unicode@),
    ensures
        r@ == spec_cells(unicode@),
{
    let n = unicode.unicode_len();
    let mut out: Vec<u8> = Vec::new();
    let mut i: usize = 0;
    while i < n
        invariant
            n == unicode@.len(),
            i <= n,
            all_braille(unicode@),
            out@ == spec_cells(unicode@.subrange(0, i as int)),
        decreases n - i,
    {
        let c = unicode.get_char(i);
        out.push(decode_unicode(c));
        i += 1;
        assert(spec_cells(unicode@.subrange(0, i as int)) =~= spec_cells(
            unicode@.subrange(0, i - 1),
        ).push(spec_decode_unicode(c)));
    }
    assert(unicode@.subrange(0, n as int) == unicode@);
    out
}

// ---------------------------------------------------------------------------
// Tables.

/// Single unit symbols and their braille.
pub open spec fn spec_single_mapping(c: char) -> Option<Seq<char>> {
    if c == 'Ω' { Some("⠴⠠⠨⠺⠲"@) }
    else if c == '%' { Some("⠴⠏"@) }
    else if c == '‰' { Some("⠴⠏⠍"@) }
    else if c == '°' { Some("⠴⠙"@) }
    else if c == '℃' { Some("⠴⠙⠠⠉"@) }
    else if c == '℉' { Some("⠴⠙⠠⠋"@) }
    else if c == '′' { Some("⠴⠤"@) }
    else if c == '″' { Some("⠴⠤⠤"@) }
    else if c == 'Å' { Some("⠴⠡"@) }
    else { None }
}

fn single_mapping(c: char) -> (r: Option<&'static str>)
    ensures
        r is Some <==> spec_single_mapping(c) is Some,
        r matches Some(s) ==> s@ == spec_single_mapping(c)->0 && all_braille(s@),
{
    proof {
        reveal_strlit("⠴⠠⠨⠺⠲");
        reveal_strlit("⠴⠏");
        reveal_strlit("⠴⠏⠍");
        reveal_strlit("⠴⠙");
        reveal_strlit("⠴⠙⠠⠉");
        reveal_strlit("⠴⠙⠠⠋");
        reveal_strlit("⠴⠤");
        reveal_strlit("⠴⠤⠤");
        reveal_strlit("⠴⠡");
    }
    if c == 'Ω' { Some("⠴⠠⠨⠺⠲") }
    else if c == '%' { Some("⠴⠏") }
    else if c == '‰' { Some("⠴⠏⠍") }
    else if c == '°' { Some("⠴⠙") }
    else if c == '℃' { Some("⠴⠙⠠⠉") }
    else if c == '℉' { Some("⠴⠙⠠⠋") }
    else if c == '′' { Some("⠴⠤") }
    else if c == '″' { Some("⠴⠤⠤") }
    else if c == 'Å' { Some("⠴⠡") }
    else { None }
}

/// Number of entries of the table of ASCII unit spellings.
pub open spec fn ascii_unit_count() -> int {
    9
}

/// The table of ASCII unit spellings, in order.
pub open spec fn spec_ascii_unit(i: int) -> (Seq<char>, Seq<char>) {
    if i == 0 { ("cm"@, "⠴⠉⠍⠲"@) }
    else if i == 1 { ("kg"@, "⠴⠅⠛⠲"@) }
    else if i == 2 { ("in"@, "⠴⠊⠝⠲"@) }
    else if i == 3 { ("mm"@, "⠴⠍⠍⠲"@) }
    else if i == 4 { ("min"@, "⠍⠔⠲"@) }
    else if i == 5 { ("cal"@, "⠴⠉⠁⠇⠲"@) }
    else if i == 6 { ("GB"@, "⠴⠠⠠⠛⠃⠲"@) }
    else if i == 7 { ("m"@, "⠴⠍⠲"@) }
    else { ("h"@, "⠴⠓⠲"@) }
}

fn ascii_unit(i: usize) -> (r: (&'static str, &'static str))
    requires
        i < 9,
    ensures
        r.0@ == spec_ascii_unit(i as int).0,
        r.1@ == spec_ascii_unit(i as int).1,
        all_braille(r.1@),
{
    proof {
        reveal_strlit("⠴⠉⠍⠲");
        reveal_strlit("⠴⠅⠛⠲");
        reveal_strlit("⠴⠊⠝⠲");
        reveal_strlit("⠴⠍⠍⠲");
        reveal_strlit("⠍⠔⠲");
        reveal_strlit("⠴⠉⠁⠇⠲");
        reveal_strlit("⠴⠠⠠⠛⠃⠲");
        reveal_strlit("⠴⠍⠲");
        reveal_strlit("⠴⠓⠲");
    }
    if i == 0 { ("cm", "⠴⠉⠍⠲") }
    else if i == 1 { ("kg", "⠴⠅⠛⠲") }
    else if i == 2 { ("in", "⠴⠊⠝⠲") }
    else if i == 3 { ("mm", "⠴⠍⠍⠲") }
    else if i == 4 { ("min", "⠍⠔⠲") }
    else if i == 5 { ("cal", "⠴⠉⠁⠇⠲") }
    else if i == 6 { ("GB", "⠴⠠⠠⠛⠃⠲") }
    else if i == 7 { ("m", "⠴⠍⠲") }
    else { ("h", "⠴⠓⠲") }
}

/// Symbols after which a Korean syllable is separated by a blank cell.
pub open spec fn spec_is_separated_symbol(c: char) -> bool {
    c == '%' || c == '‰' || c == '°' || c == '℃' || c == '℉'
}

/// `tail` starts with the characters of `s`.
pub open spec fn starts_with(tail: Seq<char>, s: Seq<char>) -> bool {
    tail.len() >= s.len() && tail.subrange(0, s.len() as int) == s
}

/// Whether `tail` starts with the characters of `s`, compared one by one.
fn chars_start_with_ascii(tail: &[char], s: &str) -> (r: bool)
    ensures
        r == starts_with(tail@, s@),
{
    let n = s.unicode_len();
    if tail.len() < n {
        return false;
    }
    let mut i: usize = 0;
    while i < n
        invariant
            n == s@.len() <= tail@.len(),
            i <= n,
            forall|j: int| 0 <= j < i ==> tail@[j] == s@[j],
        decreases n - i,
    {
        if tail[i] != s.get_char(i) {
            assert(tail@.subrange(0, n as int)[i as int] != s@[i as int]);
            return false;
        }
        i += 1;
    }
    assert(tail@.subrange(0, n as int) =~= s@);
    true
}

/// The longest unit of the first `n` table entries that `tail` starts with
/// (the later one among equals), as its index.
pub open spec fn best_ascii_unit(tail: Seq<char>, n: int) -> Option<int>
    decreases n,
{
    if n <= 0 {
        None
    } else {
        let prev = best_ascii_unit(tail, n - 1);
        let unit = spec_ascii_unit(n - 1).0;
        if starts_with(tail, unit) && (prev is None || unit.len() >= spec_ascii_unit(prev->0).0.len()) {
            Some(n - 1)
        } else {
            prev
        }
    }
}

/// The ASCII unit at position `index` of the word: the longest table
/// spelling that the rest of the word starts with, its cells and its length.
pub open spec fn spec_encode_ascii_unit(word: Seq<char>, index: int) -> Option<(Seq<u8>, int)> {
    match best_ascii_unit(word.subrange(index, word.len() as int), ascii_unit_count()) {
        Some(i) => Some((spec_cells(spec_ascii_unit(i).1), spec_ascii_unit(i).0.len() as int)),
        None => None,
    }
}

proof fn lemma_best_ascii_unit_prefix(tail: Seq<char>, n: int)
    requires
        best_ascii_unit(tail, n) is Some,
    ensures
        starts_with(tail, spec_ascii_unit(best_ascii_unit(tail, n)->0).0),
    decreases n,
{
    let prev = best_ascii_unit(tail, n - 1);
    let unit = spec_ascii_unit(n - 1).0;
    if !(starts_with(tail, unit) && (prev is None || unit.len() >= spec_ascii_unit(prev->0).0.len())) {
        lemma_best_ascii_unit_prefix(tail, n - 1);
    }
}

pub fn encode_ascii_unit(word: &[char], index: usize) -> (r: Option<(Vec<u8>, usize)>)
    requires
        index <= word@.len(),
    ensures
        r is Some <==> spec_encode_ascii_unit(word@, index as int) is Some,
        r matches Some((cells, n)) ==> spec_encode_ascii_unit(word@, index as int) == Some((cells@, n as int)),
        r matches Some((_, n)) ==> index + n <= word@.len(),
{
    let tail = &word[index..word.len()];
    let mut best: Option<usize> = None;
    let mut best_len: usize = 0;
    let mut i: usize = 0;
    while i < 9
        invariant
            i <= 9,
            index <= word@.len(),
            tail@ == word@.subrange(index as int, word@.len() as int),
            best_ascii_unit(tail@, i as int) == match best {
                Some(b) => Some(b as int),
                None => None::<int>,
            },
            best is Some ==> best->0 < i && best_len == spec_ascii_unit(best->0 as int).0.len(),
        decreases 9 - i,
    {
        let (unit, _) = ascii_unit(i);
        if chars_start_with_ascii(tail, unit) {
            let len = unit.unicode_len();
            if best.is_none() || len >= best_len {
                best = Some(i);
                best_len = len;
            }
        }
        i += 1;
    }
    proof {
        if best is Some {
            lemma_best_ascii_unit_prefix(tail@, 9);
        }
    }
    match best {
        Some(b) => {
            let (unit, cells) = ascii_unit(b);
            Some((encode_unicode_cells(cells), unit.unicode_len()))
        },
        None => None,
    }
}

/// Percent abbreviations: `%ile` (percentile) and `%p` (percentage point),
/// the latter only where no letter follows.
pub open spec fn spec_encode_percent_abbreviation(word: Seq<char>, index: int) -> Option<(Seq<u8>, int)> {
    let tail = word.subrange(index, word.len() as int);
    if starts_with(tail, "%ile"@) {
        Some((spec_cells("⠴⠏⠞"@), 4))
    } else if starts_with(tail, "%p"@) && !(tail.len() > 2 && spec_is_ascii_alphabetic(tail[2])) {
        Some((spec_cells("⠴⠏⠏"@), 2))
    } else {
        None
    }
}

pub fn encode_percent_abbreviation(word: &[char], index: usize) -> (r: Option<(Vec<u8>, usize)>)
    requires
        index <= word@.len(),
    ensures
        r is Some <==> spec_encode_percent_abbreviation(word@, index as int) is Some,
        r matches Some((cells, n)) ==> spec_encode_percent_abbreviation(word@, index as int) == Some((cells@, n as int)),
        r matches Some((_, n)) ==> index + n <= word@.len(),
{
    proof {
        reveal_strlit("%ile");
        reveal_strlit("%p");
        reveal_strlit("⠴⠏⠞");
        reveal_strlit("⠴⠏⠏");
    }
    let tail = &word[index..word.len()];
    if chars_start_with_ascii(tail, "%ile") {
        return Some((encode_unicode_cells("⠴⠏⠞"), 4));
    }
    if chars_start_with_ascii(tail, "%p") {
        if !(tail.len() > 2 && is_ascii_alphabetic(tail[2])) {
            return Some((encode_unicode_cells("⠴⠏⠏"), 2));
        }
    }
    None
}

// ---------------------------------------------------------------------------
// Compatibility glyphs of Roman units.

/// The NFKC normalization of a single character, as the characters it
/// yields.
pub uninterp spec fn nfkc_of(c: char) -> Seq<char>;

/// `unicode_normalization`'s NFKC of the one-character string `c`, the
/// characters collected in order. Nothing is claimed of the result beyond its
/// being a function of `c`.
#[verifier::external_body]
fn nfkc_chars(c: char) -> (r: Vec<char>)
    ensures
        r@ == nfkc_of(c),
{
    c.to_string().nfkc().collect()
}

/// The code points of the CJK compatibility block that are scientific and
/// measurement units (not `㏑` ln, `㏒` log, `㏚` PR and the like).
pub open spec fn spec_is_unit_codepoint(c: char) -> bool {
    let u = c as u32;
    (0x3371 <= u && u <= 0x337a) || (0x3380 <= u && u <= 0x33c6) || (0x33c8 <= u && u <= 0x33cc)
        || (0x33ce <= u && u <= 0x33d0) || (0x33d3 <= u && u <= 0x33d9) || (0x33db <= u && u
        <= 0x33df) || u == 0x33ff
}

pub open spec fn is_unit_component(c: char) -> bool {
    spec_is_ascii_alphabetic(c) || c == '2' || c == '3' || c == '/' || c == '\u{2044}' || c
        == '\u{2215}' || c == 'μ'
}

/// The grammar of a Roman unit: some ASCII letters, with digits 2 and 3,
/// slashes and the micro sign.
pub open spec fn unit_grammar(parts: Seq<char>) -> bool {
    (exists|i: int| 0 <= i < parts.len() && spec_is_ascii_alphabetic(#[trigger] parts[i]))
        && (forall|i: int| 0 <= i < parts.len() ==> is_unit_component(#[trigger] parts[i]))
}

/// The decomposition of a compatibility glyph of a Roman unit, given the
/// glyph's NFKC form `parts`.
pub open spec fn spec_decomposition_from_parts(c: char, parts: Seq<char>) -> Option<Seq<char>> {
    if spec_is_unit_codepoint(c) && !spec_is_rule_68_symbol(c) && unit_grammar(parts) {
        Some(parts)
    } else {
        None
    }
}

/// The Roman unit that a compatibility glyph stands for (`㎏` → `kg`).
pub open spec fn spec_compatibility_unit_decomposition(c: char) -> Option<Seq<char>> {
    spec_decomposition_from_parts(c, nfkc_of(c))
}

/// Given the NFKC form `parts` of `c`, the unit it decomposes to: `parts`
/// when `c` is a unit code point that rule 68 does not write and `parts`
/// follows the unit grammar.
pub fn decomposition_from_parts(c: char, parts: Vec<char>) -> (r: Option<Vec<char>>)
    ensures
        r is Some <==> spec_decomposition_from_parts(c, parts@) is Some,
        r matches Some(p) ==> p@ == parts@,
{
    let u = c as u32;
    let is_unit_codepoint = (0x3371 <= u && u <= 0x337a) || (0x3380 <= u && u <= 0x33c6) || (
    0x33c8 <= u && u <= 0x33cc) || (0x33ce <= u && u <= 0x33d0) || (0x33d3 <= u && u <= 0x33d9)
        || (0x33db <= u && u <= 0x33df) || u == 0x33ff;
    if !is_unit_codepoint || is_rule_68_symbol(c) {
        return None;
    }
    let mut any_letter = false;
    let mut i: usize = 0;
    while i < parts.len()
        invariant
            i <= parts@.len(),
            any_letter == exists|j: int| 0 <= j < i && spec_is_ascii_alphabetic(#[trigger] parts@[j]),
            forall|j: int| 0 <= j < i ==> is_unit_component(#[trigger] parts@[j]),
        decreases parts@.len() - i,
    {
        let p = parts[i];
        if is_ascii_alphabetic(p) {
            any_letter = true;
        } else if !(p == '2' || p == '3' || p == '/' || p == '\u{2044}' || p == '\u{2215}' || p
            == 'μ') {
            assert(!is_unit_component(parts@[i as int]));
            return None;
        }
        i += 1;
    }
    if any_letter {
        Some(parts)
    } else {
        None
    }
}

/// Unicode's CJK compatibility block contains square presentation forms for
/// Roman unit symbols (`㎏` → `kg`, `㎓` → `GHz`, `㎥` → `m3`). Rules 68/69
/// define the transcription from the semantic Roman unit, so the whole family
/// is recognized from its compatibility decomposition; Japanese square words
/// and other compatibility characters fail the component grammar.
pub fn compatibility_unit_decomposition(c: char) -> (r: Option<Vec<char>>)
    ensures
        r is Some <==> spec_compatibility_unit_decomposition(c) is Some,
        r matches Some(p) ==> p@ == nfkc_of(c),
{
    let u = c as u32;
    let is_unit_codepoint = (0x3371 <= u && u <= 0x337a) || (0x3380 <= u && u <= 0x33c6) || (
    0x33c8 <= u && u <= 0x33cc) || (0x33ce <= u && u <= 0x33d0) || (0x33d3 <= u && u <= 0x33d9)
        || (0x33db <= u && u <= 0x33df) || u == 0x33ff;
    if !is_unit_codepoint || is_rule_68_symbol(c) {
        return None;
    }
    let parts = nfkc_chars(c);
    decomposition_from_parts(c, parts)
}

/// A character that can stand in a chain of Roman units: an ASCII letter,
/// the micro sign or a compatibility unit glyph.
pub open spec fn spec_is_roman_unit_component(ch: char) -> bool {
    spec_is_ascii_alphabetic(ch) || ch == 'μ' || spec_compatibility_unit_decomposition(ch) is Some
}

fn is_roman_unit_component(ch: char) -> (r: bool)
    ensures
        r == spec_is_roman_unit_component(ch),
{
    is_ascii_alphabetic(ch) || ch == 'μ' || compatibility_unit_decomposition(ch).is_some()
}

/// A Roman unit chain goes on through a slash before position `i`.
pub open spec fn chain_continues_before(s: Seq<char>, i: int) -> bool {
    i >= 2 && i - 1 < s.len() && s[i - 1] == '/' && spec_is_roman_unit_component(s[i - 2])
}

/// A Roman unit chain goes on through a slash after position `i`.
pub open spec fn chain_continues_after(s: Seq<char>, i: int) -> bool {
    0 <= i && i + 2 < s.len() && s[i + 1] == '/' && spec_is_roman_unit_component(s[i + 2])
}

fn roman_unit_chain_continues_before(ctx: &RuleContext) -> (r: bool)
    ensures
        r == chain_continues_before(ctx.word_chars@, ctx.index as int),
{
    ctx.index >= 2 && ctx.index - 1 < ctx.word_chars.len() && ctx.word_chars[ctx.index - 1] == '/'
        && is_roman_unit_component(ctx.word_chars[ctx.index - 2])
}

fn roman_unit_chain_continues_after(ctx: &RuleContext) -> (r: bool)
    ensures
        r == chain_continues_after(ctx.word_chars@, ctx.index as int),
{
    ctx.index < ctx.word_chars.len() && ctx.word_chars.len() - ctx.index > 2
        && ctx.word_chars[ctx.index + 1] == '/' && is_roman_unit_component(
        ctx.word_chars[ctx.index + 2],
    )
}

/// The symbols that rule 69 writes: single unit symbols, the micro sign and
/// the compatibility glyphs of Roman units.
pub open spec fn spec_is_rule_69_symbol(c: char) -> bool {
    spec_single_mapping(c) is Some || c == 'μ' || spec_compatibility_unit_decomposition(c) is Some
}

pub fn is_rule_69_symbol(c: char) -> (r: bool)
    ensures
        r == spec_is_rule_69_symbol(c),
{
    single_mapping(c).is_some() || c == 'μ' || compatibility_unit_decomposition(c).is_some()
}

pub open spec fn all_numeric(s: Seq<char>) -> bool {
    forall|i: int| 0 <= i < s.len() ==> (spec_is_ascii_digit(#[trigger] s[i]) || s[i] == ','
        || s[i] == '.')
}

/// The position follows a number: a digit, a slash or the micro sign right
/// before it, or a previous word that is a written number.
pub open spec fn numeric_or_unit_context(ctx: RuleContext) -> bool {
    let prev = ctx.spec_prev_char();
    (prev is Some && (spec_is_ascii_digit(prev->0) || prev->0 == '/' || prev->0 == 'μ')) || (
    ctx.prev_word@.len() > 0 && all_numeric(ctx.prev_word@))
}

fn is_numeric_or_unit_context(ctx: &RuleContext) -> (r: bool)
    ensures
        r == numeric_or_unit_context(*ctx),
{
    let after_number_or_unit = match ctx.prev_char() {
        Some(prev) => is_ascii_digit(prev) || prev == '/' || prev == 'μ',
        None => false,
    };
    if after_number_or_unit {
        return true;
    }
    ctx.prev_word.unicode_len() > 0 && is_all_numeric(ctx.prev_word)
}

fn is_all_numeric(word: &str) -> (r: bool)
    ensures
        r == all_numeric(word@),
{
    let n = word.unicode_len();
    let mut i: usize = 0;
    while i < n
        invariant
            n == word@.len(),
            i <= n,
            forall|j: int| 0 <= j < i ==> (spec_is_ascii_digit(#[trigger] word@[j])
                || word@[j] == ',' || word@[j] == '.'),
        decreases n - i,
    {
        let ch = word.get_char(i);
        if !(is_ascii_digit(ch) || ch == ',' || ch == '.') {
            assert(!all_numeric(word@));
            return false;
        }
        i += 1;
    }
    true
}

/// 단어 자체가 단위 연쇄(cal/㎠/min 등)로 구성된 경우: the word holds a
/// slash together with a rule 69 symbol or an ASCII letter.
pub open spec fn spec_word_looks_like_unit_chain(word: Seq<char>) -> bool {
    let has_separator = exists|i: int| 0 <= i < word.len() && #[trigger] word[i] == '/';
    let has_unit_symbol = exists|i: int| 0 <= i < word.len() && word[i] != '/' && spec_is_rule_69_symbol(#[trigger] word[i]);
    let has_ascii_letter = exists|i: int| 0 <= i < word.len() && spec_is_ascii_alphabetic(#[trigger] word[i]);
    has_separator && (has_unit_symbol || has_ascii_letter)
}

pub fn word_looks_like_unit_chain(word: &[char]) -> (r: bool)
    ensures
        r == spec_word_looks_like_unit_chain(word@),
{
    let mut has_separator = false;
    let mut has_unit_symbol = false;
    let mut has_ascii_letter = false;
    let mut i: usize = 0;
    while i < word.len()
        invariant
            i <= word@.len(),
            has_separator == exists|j: int| 0 <= j < i && #[trigger] word@[j] == '/',
            has_unit_symbol == exists|j: int| 0 <= j < i && word@[j] != '/' && spec_is_rule_69_symbol(#[trigger] word@[j]),
            has_ascii_letter == exists|j: int| 0 <= j < i && spec_is_ascii_alphabetic(#[trigger] word@[j]),
        decreases word@.len() - i,
    {
        let c = word[i];
        if c == '/' {
            has_separator = true;
        } else if is_rule_69_symbol(c) || c == 'μ' {
            has_unit_symbol = true;
        }
        if is_ascii_alphabetic(c) {
            has_ascii_letter = true;
        }
        i += 1;
    }
    has_separator && (has_unit_symbol || has_ascii_letter)
}

/// The micro sign is a unit before a Roman letter or after a number, Ω
/// before Korean or after a number; other symbols always are.
pub open spec fn measurement_context(ctx: RuleContext, symbol: char) -> bool {
    let next = ctx.spec_next_char();
    if symbol == 'μ' {
        (next is Some && spec_is_ascii_alphabetic(next->0)) || numeric_or_unit_context(ctx)
    } else if symbol == 'Ω' {
        (next is Some && spec_is_korean_char(next->0)) || numeric_or_unit_context(ctx)
    } else {
        true
    }
}

fn is_symbol_measurement_context(ctx: &RuleContext, symbol: char) -> (r: bool)
    ensures
        r == measurement_context(*ctx, symbol),
{
    if symbol == 'μ' {
        match ctx.next_char() {
            Some(ch) => is_ascii_alphabetic(ch) || is_numeric_or_unit_context(ctx),
            None => is_numeric_or_unit_context(ctx),
        }
    } else if symbol == 'Ω' {
        match ctx.next_char() {
            Some(ch) => is_korean_char(ch) || is_numeric_or_unit_context(ctx),
            None => is_numeric_or_unit_context(ctx),
        }
    } else {
        true
    }
}

/// Drops a Roman indicator or continuation indicator that was just written.
pub open spec fn spec_trim_recent_english_indicator(result: Seq<u8>) -> Seq<u8> {
    if result.len() > 0 && (result.last() == ENGLISH_CONTINUATION || result.last() == ROMAN_INDICATOR) {
        result.drop_last()
    } else {
        result
    }
}

pub fn trim_recent_english_indicator(result: &mut Vec<u8>)
    ensures
        final(result)@ == spec_trim_recent_english_indicator(old(result)@),
{
    let n = result.len();
    if n > 0 && (result[n - 1] == ENGLISH_CONTINUATION || result[n - 1] == ROMAN_INDICATOR) {
        result.pop();
    }
}

/// Rules 33/34 override rule 69's trailing Roman terminator when a listed
/// punctuation mark or a closing mark follows, and a unit chain that goes on
/// through a slash drops it too.
pub open spec fn omits_terminator_at(word: Seq<char>, boundary: int) -> bool {
    let skips_for_punctuation = 0 <= boundary < word.len() && spec_skips_terminator(word[boundary]);
    let continues_through_slash = 0 <= boundary && boundary + 1 < word.len() && word[boundary]
        == '/' && spec_is_roman_unit_component(word[boundary + 1]);
    skips_for_punctuation || continues_through_slash
}

/// The unit cells with their terminator dropped where rule 33/34 or a slash
/// chain asks for it.
pub open spec fn spec_omit_terminator(encoded: Seq<u8>, word: Seq<char>, boundary: int) -> Seq<u8> {
    if omits_terminator_at(word, boundary) && encoded.len() > 0 && encoded.last() == terminator() {
        encoded.drop_last()
    } else {
        encoded
    }
}

pub fn omit_roman_terminator_before_boundary(encoded: &mut Vec<u8>, word: &[char], boundary_index: usize)
    ensures
        final(encoded)@ == spec_omit_terminator(old(encoded)@, word@, boundary_index as int),
{
    let skips_for_punctuation = boundary_index < word.len() && should_skip_terminator_for_symbol(
        word[boundary_index],
    );
    let continues_through_slash = boundary_index < word.len() && word.len() - boundary_index > 1
        && word[boundary_index] == '/' && is_roman_unit_component(word[boundary_index + 1]);
    let n = encoded.len();
    if (skips_for_punctuation || continues_through_slash) && n > 0 && encoded[n - 1] == 50 {
        encoded.pop();
    }
}

/// The marks of rules 33 and 34 that close a Roman unit without its
/// terminator: , . ? ! : ; ) ] }.
pub open spec fn closing_marks() -> Seq<char> {
    seq![',', '.', '?', '!', ':', ';', ')', ']', '}']
}

proof fn lemma_closing_marks_skip(c: char)
    ensures
        closing_marks().contains(c) <==> spec_skips_terminator(c),
{
    let m = closing_marks();
    if m.contains(c) {
        let k = choose|k: int| 0 <= k < m.len() && m[k] == c;
        assert(0 <= k < 9);
    }
    if spec_skips_terminator(c) {
        if c == ',' { assert(m[0] == c); }
        else if c == '.' { assert(m[1] == c); }
        else if c == '?' { assert(m[2] == c); }
        else if c == '!' { assert(m[3] == c); }
        else if c == ':' { assert(m[4] == c); }
        else if c == ';' { assert(m[5] == c); }
        else if c == ')' { assert(m[6] == c); }
        else if c == ']' { assert(m[7] == c); }
        else { assert(m[8] == c); }
    }
}

/// A Roman unit written right before one of the closing marks
/// , . ? ! : ; ) ] } loses its final terminator ⠲.
pub proof fn lemma_terminator_dropped_before_closing_mark(encoded: Seq<u8>, word: Seq<char>, boundary: int)
    requires
        0 <= boundary < word.len(),
        closing_marks().contains(word[boundary]),
        encoded.len() > 0,
        encoded.last() == 50,
    ensures
        spec_omit_terminator(encoded, word, boundary) == encoded.drop_last(),
{
    lemma_closing_marks_skip(word[boundary]);
}

/// Before any other character than a closing mark or a slash, and at the end
/// of the word, a Roman unit keeps its cells, terminator included.
pub proof fn lemma_terminator_kept_elsewhere(encoded: Seq<u8>, word: Seq<char>, boundary: int)
    requires
        0 <= boundary,
        boundary < word.len() ==> !closing_marks().contains(word[boundary]) && word[boundary] != '/',
    ensures
        spec_omit_terminator(encoded, word, boundary) == encoded,
{
    if boundary < word.len() {
        lemma_closing_marks_skip(word[boundary]);
    }
}

/// A blank cell separates %, ‰, °, ℃, ℉ from a following Korean syllable.
pub open spec fn spec_separator_after(symbol: char, next: Option<char>) -> bool {
    spec_is_separated_symbol(symbol) && next is Some && spec_is_korean_char(next->0)
}

pub fn should_insert_separator_after_symbol(symbol: char, next: Option<char>) -> (r: bool)
    ensures
        r == spec_separator_after(symbol, next),
{
    (symbol == '%' || symbol == '‰' || symbol == '°' || symbol == '℃' || symbol == '℉') && match next {
        Some(n) => is_korean_char(n),
        None => false,
    }
}

// ---------------------------------------------------------------------------
// Writing a Roman unit.

/// The upper-case hexadecimal digit of `d`, for `d < 16`.
pub open spec fn spec_hex_digit(d: int) -> char {
    if d == 0 { '0' }
    else if d == 1 { '1' }
    else if d == 2 { '2' }
    else if d == 3 { '3' }
    else if d == 4 { '4' }
    else if d == 5 { '5' }
    else if d == 6 { '6' }
    else if d == 7 { '7' }
    else if d == 8 { '8' }
    else if d == 9 { '9' }
    else if d == 10 { 'A' }
    else if d == 11 { 'B' }
    else if d == 12 { 'C' }
    else if d == 13 { 'D' }
    else if d == 14 { 'E' }
    else { 'F' }
}

/// The upper-case hexadecimal digits of `v`, without leading zeros.
pub open spec fn spec_hex(v: nat) -> Seq<char>
    decreases v,
{
    if v < 16 {
        seq![spec_hex_digit(v as int)]
    } else {
        spec_hex(v / 16) + seq![spec_hex_digit((v % 16) as int)]
    }
}

/// `v` in upper-case hexadecimal, padded with zeros to four digits
/// (`{:04X}`).
pub open spec fn spec_hex4(v: nat) -> Seq<char> {
    let digits = spec_hex(v);
    if digits.len() < 4 {
        Seq::new((4 - digits.len()) as nat, |_i: int| '0') + digits
    } else {
        digits
    }
}

fn hex_digit(d: u32) -> (r: char)
    requires
        d < 16,
    ensures
        r == spec_hex_digit(d as int),
{
    match d {
        0 => '0',
        1 => '1',
        2 => '2',
        3 => '3',
        4 => '4',
        5 => '5',
        6 => '6',
        7 => '7',
        8 => '8',
        9 => '9',
        10 => 'A',
        11 => 'B',
        12 => 'C',
        13 => 'D',
        14 => 'E',
        _ => 'F',
    }
}

fn hex_digits(v: u32) -> (r: Vec<char>)
    ensures
        r@ == spec_hex(v as nat),
    decreases v,
{
    if v < 16 {
        vec![hex_digit(v)]
    } else {
        let mut r = hex_digits(v / 16);
        r.push(hex_digit(v % 16));
        r
    }
}

fn hex4(v: u32) -> (r: Vec<char>)
    ensures
        r@ == spec_hex4(v as nat),
{
    let mut digits = hex_digits(v);
    let ghost d = digits@;
    let mut out: Vec<char> = Vec::new();
    let mut k = digits.len();
    while k < 4
        invariant
            d.len() <= k <= 4 || (k == d.len() && k >= 4),
            out@ == Seq::new((k - d.len()) as nat, |_i: int| '0'),
            digits@ == d,
        decreases 4 - k,
    {
        out.push('0');
        k += 1;
        assert(out@ =~= Seq::new((k - d.len()) as nat, |_i: int| '0'));
    }
    out.append(&mut digits);
    proof {
        if d.len() >= 4 {
            assert(out@ =~= d);
        } else {
            assert(out@ =~= Seq::new((4 - d.len()) as nat, |_i: int| '0') + d);
        }
    }
    out
}

/// The message for a unit component that cannot be written.
pub open spec fn unsupported_component_message(c: char) -> Seq<char> {
    "unsupported compatibility unit component: U+"@ + spec_hex4(c as u32 as nat)
}

/// The message for unit letters that cannot be written.
pub open spec fn unit_letters_message(letters: Seq<char>) -> Seq<char> {
    "cannot encode rule 69 Roman unit letters: "@ + letters
}

fn unsupported_component(c: char) -> (r: String)
    ensures
        r@ == unsupported_component_message(c),
{
    let mut m = String::from_str("unsupported compatibility unit component: U+");
    let digits = hex4(c as u32);
    let h = crate::text::string_from_chars(&digits);
    m.append(h.as_str());
    m
}

/// Rule 69 spells the letters of a unit with rule 37's groupsigns only:
/// whole-word signs and shortforms are not used.
pub open spec fn spec_unit_letters(letters: Seq<char>) -> Option<Seq<u8>> {
    spec_encode_korean_word(letters, false, false, false)
}

pub fn encode_rule_69_unit_letters(letters: &[char]) -> (r: Result<Vec<u8>, String>)
    ensures
        r is Ok <==> spec_unit_letters(letters@) is Some,
        r matches Ok(cells) ==> cells@ == spec_unit_letters(letters@)->0,
        r matches Err(m) ==> m@ == unit_letters_message(letters@),
{
    match encode_korean_word(letters, false, false, false, false, false) {
        Some(cells) => Ok(cells),
        None => {
            let mut m = String::from_str("cannot encode rule 69 Roman unit letters: ");
            let v = vstd::slice::slice_to_vec(letters);
            let l = crate::text::string_from_chars(&v);
            m.append(l.as_str());
            Err(m)
        },
    }
}

pub open spec fn prepend(p: Seq<u8>, o: Option<Seq<u8>>) -> Option<Seq<u8>> {
    match o {
        Some(rest) => Some(p + rest),
        None => None,
    }
}

/// The cells of the unit components from position `i` on: the micro sign
/// ⠨⠍, a superscript 2 or 3 (⠘⠼ and the digit), a slash ⠸⠌, and each run of
/// ASCII letters; `None` at any other component.
pub open spec fn spec_unit_components(parts: Seq<char>, i: int) -> Option<Seq<u8>>
    decreases parts.len() - i,
{
    if i < 0 || i >= parts.len() {
        Some(Seq::empty())
    } else {
        let c = parts[i];
        if c == 'μ' {
            prepend(seq![40u8, 13u8], spec_unit_components(parts, i + 1))
        } else if c == '2' || c == '3' {
            prepend(seq![24u8, 60u8, spec_digit_cell(c)], spec_unit_components(parts, i + 1))
        } else if c == '/' || c == '\u{2044}' || c == '\u{2215}' {
            prepend(seq![56u8, 12u8], spec_unit_components(parts, i + 1))
        } else if spec_is_ascii_alphabetic(c) {
            proof {
                lemma_alpha_run_end(parts, i);
            }
            let end = alpha_run_end(parts, i);
            match spec_unit_letters(parts.subrange(i, end)) {
                Some(letters) => prepend(letters, spec_unit_components(parts, end)),
                None => None,
            }
        } else {
            None
        }
    }
}

/// The message of the first unit component from position `i` on that
/// cannot be written: a run of letters that the Roman encoder refuses, or a
/// character that is no unit component.
pub open spec fn spec_unit_error(parts: Seq<char>, i: int) -> Seq<char>
    decreases parts.len() - i,
{
    if i < 0 || i >= parts.len() {
        Seq::empty()
    } else {
        let c = parts[i];
        if c == 'μ' || c == '2' || c == '3' || c == '/' || c == '\u{2044}' || c == '\u{2215}' {
            spec_unit_error(parts, i + 1)
        } else if spec_is_ascii_alphabetic(c) {
            proof {
                lemma_alpha_run_end(parts, i);
            }
            let end = alpha_run_end(parts, i);
            match spec_unit_letters(parts.subrange(i, end)) {
                Some(_) => spec_unit_error(parts, end),
                None => unit_letters_message(parts.subrange(i, end)),
            }
        } else {
            unsupported_component_message(c)
        }
    }
}

pub open spec fn ends_with_superscript(parts: Seq<char>) -> bool {
    parts.len() > 0 && (parts.last() == '2' || parts.last() == '3')
}

/// A Roman unit: the Roman indicator unless the chain goes on from a
/// previous unit, the components, and the terminator unless the chain goes
/// on or the unit ends with a superscript (rule 68, `㎡` → `0m^#b`).
pub open spec fn spec_encode_compatibility_unit(
    parts: Seq<char>,
    needs_roman_indicator: bool,
    needs_roman_terminator: bool,
) -> Option<Seq<u8>> {
    let lead: Seq<u8> = if needs_roman_indicator { seq![ROMAN_INDICATOR] } else { Seq::empty() };
    let tail: Seq<u8> = if needs_roman_terminator && !ends_with_superscript(parts) {
        seq![terminator()]
    } else {
        Seq::empty()
    };
    match spec_unit_components(parts, 0) {
        Some(body) => Some(lead + body + tail),
        None => None,
    }
}

pub proof fn lemma_alpha_run_end(s: Seq<char>, i: int)
    requires
        0 <= i < s.len(),
        spec_is_ascii_alphabetic(s[i]),
    ensures
        i < alpha_run_end(s, i) <= s.len(),
    decreases s.len() - i,
{
    assert(alpha_run_end(s, i) == alpha_run_end(s, i + 1));
    if i + 1 < s.len() && spec_is_ascii_alphabetic(s[i + 1]) {
        lemma_alpha_run_end(s, i + 1);
    } else {
        assert(alpha_run_end(s, i + 1) == i + 1);
    }
}

pub fn encode_compatibility_unit(
    parts: &[char],
    needs_roman_indicator: bool,
    needs_roman_terminator: bool,
) -> (r: Result<Vec<u8>, String>)
    ensures
        r is Ok <==> spec_encode_compatibility_unit(parts@, needs_roman_indicator, needs_roman_terminator) is Some,
        r matches Ok(cells) ==> cells@ == spec_encode_compatibility_unit(parts@, needs_roman_indicator, needs_roman_terminator)->0,
        r matches Err(m) ==> m@ == spec_unit_error(parts@, 0),
{
    let mut encoded: Vec<u8> = Vec::new();
    if needs_roman_indicator {
        encoded.push(ROMAN_INDICATOR);
    }
    let ghost lead = encoded@;

    let mut index = 0usize;
    while index < parts.len()
        invariant
            index <= parts@.len(),
            spec_unit_components(parts@, 0) == prepend(encoded@.subrange(lead.len() as int, encoded@.len() as int), spec_unit_components(parts@, index as int)),
            lead.len() <= encoded@.len(),
            encoded@.subrange(0, lead.len() as int) == lead,
            spec_unit_error(parts@, 0) == spec_unit_error(parts@, index as int),
        decreases parts@.len() - index,
    {
        let ghost before = encoded@;
        let ghost i = index as int;
        let c = parts[index];
        let ghost piece: Seq<u8>;
        let ghost next: int;
        if c == 'μ' {
            encoded.push(40);
            encoded.push(13);
            index += 1;
            proof { piece = seq![40u8, 13u8]; next = i + 1; }
        } else if c == '2' || c == '3' {
            encoded.push(24);
            encoded.push(60);
            let digit = encode_number(c)?;
            encoded.push(digit);
            index += 1;
            proof { piece = seq![24u8, 60u8, digit]; next = i + 1; }
        } else if c == '/' || c == '\u{2044}' || c == '\u{2215}' {
            encoded.push(56);
            encoded.push(12);
            index += 1;
            proof { piece = seq![56u8, 12u8]; next = i + 1; }
        } else if is_ascii_alphabetic(c) {
            proof { lemma_alpha_run_end(parts@, i); }
            let end = crate::rules::korean::rule_28::alpha_run_end_at(parts, index);
            let letters = &parts[index..end];
            let unit = match encode_rule_69_unit_letters(letters) {
                Ok(unit) => unit,
                Err(e) => return Err(e),
            };
            let mut unit = unit;
            let ghost u = unit@;
            encoded.append(&mut unit);
            index = end;
            proof { piece = u; next = end as int; }
        } else {
            return Err(unsupported_component(c));
        }
        proof {
            assert(encoded@ =~= before + piece);
            assert(spec_unit_components(parts@, i) == prepend(piece, spec_unit_components(parts@, next)));
            let done = before.subrange(lead.len() as int, before.len() as int);
            assert(encoded@.subrange(lead.len() as int, encoded@.len() as int) =~= done + piece);
            assert(encoded@.subrange(0, lead.len() as int) =~= before.subrange(0, lead.len() as int));
            match spec_unit_components(parts@, next) {
                Some(rest) => {
                    assert(done + (piece + rest) == (done + piece) + rest);
                },
                None => {},
            }
        }
    }

    // Rule 68's superscript closes the compact unit without a Roman
    // terminator; otherwise rule 69 terminates the Roman unit unless the same
    // Roman unit chain continues through a slash.
    let ends_sup = parts.len() > 0 && (parts[parts.len() - 1] == '2' || parts[parts.len() - 1] == '3');
    let ghost body = encoded@.subrange(lead.len() as int, encoded@.len() as int);
    assert(encoded@ =~= lead + body);
    if needs_roman_terminator && !ends_sup {
        encoded.push(50);
    }
    Ok(encoded)
}

/// `o` with `cell` written after it.
pub open spec fn append_cell(o: Option<Seq<u8>>, cell: u8) -> Option<Seq<u8>> {
    match o {
        Some(cells) => Some(cells + seq![cell]),
        None => None,
    }
}

/// Asking for the Roman indicator only puts ⠴ in front of a unit; a unit
/// that cannot be written fails either way (with the same message, which
/// depends on the components alone).
pub proof fn lemma_unit_indicator_prepends(parts: Seq<char>, needs_roman_terminator: bool)
    ensures
        spec_encode_compatibility_unit(parts, true, needs_roman_terminator) == prepend(
            seq![ROMAN_INDICATOR],
            spec_encode_compatibility_unit(parts, false, needs_roman_terminator),
        ),
{
    match spec_unit_components(parts, 0) {
        Some(body) => {
            let tail: Seq<u8> = if needs_roman_terminator && !ends_with_superscript(parts) {
                seq![terminator()]
            } else {
                Seq::empty()
            };
            assert(seq![ROMAN_INDICATOR] + body + tail =~= seq![ROMAN_INDICATOR] + (Seq::<u8>::empty() + body + tail));
        },
        None => {},
    }
}

/// Asking for the terminator only puts ⠲ after a unit, and nothing after one
/// that ends with a superscript; a unit that cannot be written fails either
/// way.
pub proof fn lemma_unit_terminator_appends(parts: Seq<char>, needs_roman_indicator: bool)
    ensures
        spec_encode_compatibility_unit(parts, needs_roman_indicator, true) == if ends_with_superscript(parts) {
            spec_encode_compatibility_unit(parts, needs_roman_indicator, false)
        } else {
            append_cell(spec_encode_compatibility_unit(parts, needs_roman_indicator, false), terminator())
        },
{
    match spec_unit_components(parts, 0) {
        Some(body) => {
            let lead: Seq<u8> = if needs_roman_indicator { seq![ROMAN_INDICATOR] } else { Seq::empty() };
            assert(lead + body + Seq::<u8>::empty() =~= lead + body);
        },
        None => {},
    }
}

proof fn lemma_alpha_run_letters(s: Seq<char>, i: int)
    requires
        0 <= i <= s.len(),
    ensures
        i <= alpha_run_end(s, i) <= s.len(),
        all_ascii_alphabetic(s.subrange(i, alpha_run_end(s, i))),
    decreases s.len() - i,
{
    if i < s.len() && spec_is_ascii_alphabetic(s[i]) {
        lemma_alpha_run_letters(s, i + 1);
        let end = alpha_run_end(s, i);
        assert forall|k: int| 0 <= k < end - i implies spec_is_ascii_alphabetic(
            #[trigger] s.subrange(i, end)[k],
        ) by {
            if k > 0 {
                assert(s.subrange(i, end)[k] == s.subrange(i + 1, end)[k - 1]);
            }
        }
    }
}

proof fn lemma_unit_components_total(parts: Seq<char>, i: int)
    requires
        0 <= i <= parts.len(),
        forall|j: int| i <= j < parts.len() ==> is_unit_component(#[trigger] parts[j]),
    ensures
        spec_unit_components(parts, i) is Some,
    decreases parts.len() - i,
{
    if i < parts.len() {
        let c = parts[i];
        assert(is_unit_component(parts[i]));
        if c == 'μ' || c == '2' || c == '3' || c == '/' || c == '\u{2044}' || c == '\u{2215}' {
            lemma_unit_components_total(parts, i + 1);
        } else {
            lemma_alpha_run_end(parts, i);
            lemma_alpha_run_letters(parts, i);
            lemma_unit_components_total(parts, alpha_run_end(parts, i));
        }
    }
}

/// Every compatibility glyph accepted as a Roman unit can be written, with
/// or without the Roman indicator and terminator, and so can each run of
/// letters in its decomposition.
pub proof fn lemma_accepted_unit_encodes(c: char, needs_roman_indicator: bool, needs_roman_terminator: bool)
    requires
        spec_compatibility_unit_decomposition(c) is Some,
    ensures
        spec_encode_compatibility_unit(
            spec_compatibility_unit_decomposition(c)->0,
            needs_roman_indicator,
            needs_roman_terminator,
        ) is Some,
        forall|i: int| 0 <= i < nfkc_of(c).len() && spec_is_ascii_alphabetic(#[trigger] nfkc_of(c)[i])
            && (i == 0 || !spec_is_ascii_alphabetic(nfkc_of(c)[i - 1])) ==> spec_unit_letters(
            nfkc_of(c).subrange(i, alpha_run_end(nfkc_of(c), i)),
        ) is Some,
{
    let parts = nfkc_of(c);
    assert(unit_grammar(parts));
    lemma_unit_components_total(parts, 0);
    assert forall|i: int| 0 <= i < parts.len() && spec_is_ascii_alphabetic(#[trigger] parts[i])
        && (i == 0 || !spec_is_ascii_alphabetic(parts[i - 1])) implies spec_unit_letters(
        parts.subrange(i, alpha_run_end(parts, i)),
    ) is Some by {
        lemma_alpha_run_end(parts, i);
        lemma_alpha_run_letters(parts, i);
    }
}

// ---------------------------------------------------------------------------
// ASCII spellings of the compatibility glyphs.

/// Lexicographic order of character sequences, by code point (which is the
/// order of their UTF-8 bytes).
pub open spec fn seq_lt(a: Seq<char>, b: Seq<char>) -> bool
    decreases a.len(),
{
    if a.len() == 0 {
        b.len() > 0
    } else if b.len() == 0 {
        false
    } else if a[0] != b[0] {
        a[0] < b[0]
    } else {
        seq_lt(a.drop_first(), b.drop_first())
    }
}

/// Of two different sequences one comes first.
pub proof fn lemma_seq_lt_total(a: Seq<char>, b: Seq<char>)
    requires
        a != b,
    ensures
        seq_lt(a, b) || seq_lt(b, a),
    decreases a.len(),
{
    if a.len() == 0 || b.len() == 0 {
        if a.len() == 0 && b.len() == 0 {
            assert(a =~= b);
        }
    } else if a[0] != b[0] {
    } else {
        if a.drop_first() == b.drop_first() {
            assert(a =~= b) by {
                assert(a.drop_first().len() == b.drop_first().len());
                assert(a.len() == b.len());
                assert forall|k: int| 0 <= k < a.len() implies a[k] == b[k] by {
                    if k > 0 {
                        assert(a[k] == a.drop_first()[k - 1]);
                        assert(b[k] == b.drop_first()[k - 1]);
                    }
                }
            }
        }
        lemma_seq_lt_total(a.drop_first(), b.drop_first());
    }
}

/// Whether `a` comes before `b` in lexicographic order.
fn str_lt(a: &str, b: &str) -> (r: bool)
    ensures
        r == seq_lt(a@, b@),
{
    let na = a.unicode_len();
    let nb = b.unicode_len();
    let mut i: usize = 0;
    assert(a@.skip(0) == a@ && b@.skip(0) == b@);
    loop
        invariant
            na == a@.len(),
            nb == b@.len(),
            i <= na,
            i <= nb,
            seq_lt(a@, b@) == seq_lt(a@.skip(i as int), b@.skip(i as int)),
        decreases na - i,
    {
        if i == na {
            return i < nb;
        }
        if i == nb {
            return false;
        }
        let ca = a.get_char(i);
        let cb = b.get_char(i);
        if ca != cb {
            assert(a@.skip(i as int)[0] == ca && b@.skip(i as int)[0] == cb);
            return ca < cb;
        }
        assert(a@.skip(i as int).drop_first() =~= a@.skip(i + 1));
        assert(b@.skip(i as int).drop_first() =~= b@.skip(i + 1));
        i += 1;
    }
}

fn bytes_eq(a: &Vec<u8>, b: &Vec<u8>) -> (r: bool)
    ensures
        r == (a@ == b@),
{
    if a.len() != b.len() {
        return false;
    }
    let mut i: usize = 0;
    while i < a.len()
        invariant
            a@.len() == b@.len(),
            i <= a@.len(),
            forall|j: int| 0 <= j < i ==> a@[j] == b@[j],
        decreases a@.len() - i,
    {
        if a[i] != b[i] {
            return false;
        }
        i += 1;
    }
    assert(a@ =~= b@);
    true
}

fn copy_bytes(v: &Vec<u8>) -> (r: Vec<u8>)
    ensures
        r@ == v@,
{
    let mut out: Vec<u8> = Vec::new();
    let mut i: usize = 0;
    while i < v.len()
        invariant
            i <= v@.len(),
            out@ == v@.subrange(0, i as int),
        decreases v@.len() - i,
    {
        out.push(v[i]);
        i += 1;
        assert(out@ =~= v@.subrange(0, i as int));
    }
    assert(v@.subrange(0, v@.len() as int) == v@);
    out
}

/// The ASCII spelling that a glyph of the compatibility block exposes, with
/// the cells of its owner: a Roman unit glyph is written by rule 69, and
/// other all-letter glyphs by rule 68 where it writes them.
pub open spec fn spec_candidate(glyph: char) -> Option<(Seq<char>, Seq<u8>)> {
    let parts = nfkc_of(glyph);
    if !all_ascii_letters(parts) {
        None
    } else if spec_compatibility_unit_decomposition(glyph) is Some {
        match spec_encode_compatibility_unit(parts, true, true) {
            Some(e) => Some((parts, e)),
            None => None,
        }
    } else {
        match crate::rules::korean::rule_68::spec_rule_68_cells(glyph) {
            Some(e) => Some((parts, e)),
            None => None,
        }
    }
}

/// The spelling that a glyph exposes.
pub open spec fn candidate_spelling(glyph: char) -> Seq<char> {
    (spec_candidate(glyph)->0).0
}

pub open spec fn all_ascii_letters(s: Seq<char>) -> bool {
    forall|i: int| 0 <= i < s.len() ==> spec_is_ascii_alphabetic(#[trigger] s[i])
}

fn all_ascii_letters_in(s: &Vec<char>) -> (r: bool)
    ensures
        r == all_ascii_letters(s@),
{
    let mut i: usize = 0;
    while i < s.len()
        invariant
            i <= s@.len(),
            forall|j: int| 0 <= j < i ==> spec_is_ascii_alphabetic(#[trigger] s@[j]),
        decreases s@.len() - i,
    {
        if !is_ascii_alphabetic(s[i]) {
            return false;
        }
        i += 1;
    }
    true
}

/// ASCII spellings that are canonically exposed by the same Unicode
/// compatibility-unit family (`㎞` -> `km`, `㎎` -> `mg`, `㎾` -> `kW`, ...).
pub fn compatibility_ascii_unit_candidate(glyph: char) -> (r: Option<(String, Vec<u8>)>)
    ensures
        r is Some <==> spec_candidate(glyph) is Some,
        r matches Some((spelling, cells)) ==> spec_candidate(glyph) == Some((spelling@, cells@)),
{
    let parts = nfkc_chars(glyph);
    if !all_ascii_letters_in(&parts) {
        return None;
    }
    let encoded = if compatibility_unit_decomposition(glyph).is_some() {
        match encode_compatibility_unit(parts.as_slice(), true, true) {
            Ok(e) => e,
            Err(_) => return None,
        }
    } else {
        match crate::rules::korean::rule_68::encode_rule_68_symbol(glyph) {
            Some(e) => e,
            None => return None,
        }
    };
    Some((crate::text::string_from_chars(&parts), encoded))
}

/// The owners of spelling `k` among the glyphs from U+3300 up to (not
/// including) `hi`, in code point order, each with its cells.
pub open spec fn spec_owners_in(k: Seq<char>, hi: int) -> Seq<(char, Seq<u8>)>
    decreases hi - 0x3300,
{
    if hi <= 0x3300 {
        Seq::empty()
    } else {
        let prev = spec_owners_in(k, hi - 1);
        let g = (hi - 1) as char;
        match spec_candidate(g) {
            Some((sp, e)) => if sp == k { prev.push((g, e)) } else { prev },
            None => prev,
        }
    }
}

pub open spec fn owners_view(v: Seq<(String, Vec<(char, Vec<u8>)>)>) -> Seq<(Seq<char>, Seq<(char, Seq<u8>)>)> {
    v.map_values(|g: (String, Vec<(char, Vec<u8>)>)| (g.0@, g.1@.map_values(|o: (char, Vec<u8>)| (o.0, o.1@))))
}

/// The spelling-to-owners table of the glyphs below `hi`: spellings in
/// lexicographic order, each once, with all its owners.
pub open spec fn is_owner_table(o: Seq<(Seq<char>, Seq<(char, Seq<u8>)>)>, hi: int) -> bool {
    &&& forall|i: int, j: int| 0 <= i < j < o.len() ==> o[i].0 != o[j].0
    &&& forall|i: int| 0 <= i < o.len() - 1 ==> seq_lt(o[i].0, #[trigger] o[i + 1].0)
    &&& forall|i: int| 0 <= i < o.len() ==> (#[trigger] o[i]).1 == spec_owners_in(o[i].0, hi)
        && o[i].1.len() > 0
    &&& forall|code: int| 0x3300 <= code < hi && #[trigger] spec_candidate(code as char) is Some
        ==> exists|i: int| 0 <= i < o.len() && o[i].0 == candidate_spelling(code as char)
}

proof fn lemma_owners_in_empty(k: Seq<char>, hi: int)
    requires
        forall|code: int| 0x3300 <= code < hi && #[trigger] spec_candidate(code as char) is Some
            ==> candidate_spelling(code as char) != k,
    ensures
        spec_owners_in(k, hi).len() == 0,
    decreases hi - 0x3300,
{
    if hi > 0x3300 {
        assert(spec_candidate((hi - 1) as char) is Some ==> candidate_spelling((hi - 1) as char) != k);
        lemma_owners_in_empty(k, hi - 1);
    }
}

pub open spec fn owners_entry_view(g: (String, Vec<(char, Vec<u8>)>)) -> (Seq<char>, Seq<(char, Seq<u8>)>) {
    (g.0@, g.1@.map_values(|o: (char, Vec<u8>)| (o.0, o.1@)))
}

proof fn lemma_owners_in_step(k: Seq<char>, code: int)
    requires
        code >= 0x3300,
    ensures
        spec_owners_in(k, code + 1) == match spec_candidate(code as char) {
            Some((sp, e)) => if sp == k { spec_owners_in(k, code).push((code as char, e)) } else { spec_owners_in(k, code) },
            None => spec_owners_in(k, code),
        },
{
}

/// Groups the glyphs of U+3300..=U+33FF by the ASCII spelling they expose,
/// in the order of spellings, each group in code point order.
pub fn compatibility_ascii_unit_owners() -> (r: Vec<(String, Vec<(char, Vec<u8>)>)>)
    ensures
        is_owner_table(owners_view(r@), 0x3400),
{
    let mut by_spelling: Vec<(String, Vec<(char, Vec<u8>)>)> = Vec::new();
    let mut code: u32 = 0x3300;
    assert(owners_view(by_spelling@) =~= Seq::empty());
    while code < 0x3400
        invariant
            0x3300 <= code <= 0x3400,
            is_owner_table(owners_view(by_spelling@), code as int),
        decreases 0x3400 - code,
    {
        let ghost ov = owners_view(by_spelling@);
        let glyph = crate::text::char_from_u32(code).unwrap();
        assert(glyph == code as char);
        proof {
            assert forall|k: Seq<char>| #[trigger] spec_owners_in(k, code + 1) == match spec_candidate(code as char) {
                Some((sp, e)) => if sp == k { spec_owners_in(k, code as int).push((code as char, e)) } else { spec_owners_in(k, code as int) },
                None => spec_owners_in(k, code as int),
            } by {
                lemma_owners_in_step(k, code as int);
            }
        }
        match compatibility_ascii_unit_candidate(glyph) {
            None => {
                proof {
                    assert forall|i: int| 0 <= i < ov.len() implies (#[trigger] ov[i]).1 == spec_owners_in(ov[i].0, code + 1) by {
                        assert(spec_owners_in(ov[i].0, code + 1) == spec_owners_in(ov[i].0, code as int));
                    }
                }
            },
            Some((spelling, encoded)) => {
                let ghost sp = spelling@;
                let ghost e = encoded@;
                // Look for the spelling among the groups.
                let mut j: usize = 0;
                let mut found = false;
                while !found && j < by_spelling.len()
                    invariant
                        j <= by_spelling@.len(),
                        ov == owners_view(by_spelling@),
                        sp == spelling@,
                        found ==> j < by_spelling@.len() && ov[j as int].0 == sp,
                        !found ==> forall|q: int| 0 <= q < j ==> ov[q].0 != sp,
                    decreases by_spelling@.len() - j + (if found { 0int } else { 1int }),
                {
                    if by_spelling[j].0 == spelling {
                        found = true;
                    } else {
                        j += 1;
                    }
                }
                if found {
                    let ghost before_vec = by_spelling@;
                    let (key, mut owners) = by_spelling.remove(j);
                    let ghost old_owners = owners@;
                    assert(owners_entry_view(before_vec[j as int]) == ov[j as int]);
                    owners.push((glyph, encoded));
                    let ghost ne = (key, owners);
                    proof {
                        assert(owners@.map_values(|o: (char, Vec<u8>)| (o.0, o.1@)) =~= old_owners.map_values(|o: (char, Vec<u8>)| (o.0, o.1@)).push((glyph, e)));
                        assert(owners_entry_view(ne) == (sp, ov[j as int].1.push((glyph, e))));
                    }
                    by_spelling.insert(j, (key, owners));
                    proof {
                        assert(by_spelling@ =~= before_vec.update(j as int, ne));
                        let nv = owners_view(by_spelling@);
                        assert(nv =~= ov.update(j as int, (sp, ov[j as int].1.push((glyph, e)))));
                        assert forall|i: int| 0 <= i < nv.len() implies (#[trigger] nv[i]).1 == spec_owners_in(nv[i].0, code + 1) && nv[i].1.len() > 0 by {
                            if i != j {
                                assert(ov[i].0 != sp);
                            }
                        }
                        assert forall|c: int| 0x3300 <= c < code + 1 && #[trigger] spec_candidate(c as char) is Some
                            implies exists|i: int| 0 <= i < nv.len() && nv[i].0 == candidate_spelling(c as char) by {
                            if c < code {
                                let i = choose|i: int| 0 <= i < ov.len() && ov[i].0 == candidate_spelling(c as char);
                                assert(nv[i].0 == ov[i].0);
                            } else {
                                assert(nv[j as int].0 == sp);
                            }
                        }
                        assert forall|i: int| 0 <= i < nv.len() - 1 implies seq_lt(nv[i].0, #[trigger] nv[i + 1].0) by {
                            assert(nv[i].0 == ov[i].0 && nv[i + 1].0 == ov[i + 1].0);
                        }
                    }
                } else {
                    // A new spelling: no earlier glyph has it.
                    proof {
                        assert forall|c: int| 0x3300 <= c < code && #[trigger] spec_candidate(c as char) is Some
                            implies candidate_spelling(c as char) != sp by {
                            let i = choose|i: int| 0 <= i < ov.len() && ov[i].0 == candidate_spelling(c as char);
                            assert(ov[i].0 != sp);
                        }
                        lemma_owners_in_empty(sp, code as int);
                    }
                    let mut p: usize = 0;
                    while p < by_spelling.len() && str_lt(by_spelling[p].0.as_str(), spelling.as_str())
                        invariant
                            p <= by_spelling@.len(),
                            ov == owners_view(by_spelling@),
                            sp == spelling@,
                            forall|q: int| 0 <= q < p ==> seq_lt(ov[q].0, sp),
                        decreases by_spelling@.len() - p,
                    {
                        p += 1;
                    }
                    proof {
                        if p < ov.len() {
                            assert(ov[p as int].0 != sp);
                            assert(!seq_lt(ov[p as int].0, sp));
                            lemma_seq_lt_total(ov[p as int].0, sp);
                        }
                    }
                    let mut owners: Vec<(char, Vec<u8>)> = Vec::new();
                    owners.push((glyph, encoded));
                    let ghost before_vec = by_spelling@;
                    let ghost ne = (spelling, owners);
                    let ghost entry = (sp, seq![(glyph, e)]);
                    proof {
                        assert(owners@.map_values(|o: (char, Vec<u8>)| (o.0, o.1@)) =~= seq![(glyph, e)]);
                        assert(owners_entry_view(ne) == entry);
                    }
                    by_spelling.insert(p, (spelling, owners));
                    proof {
                        assert(by_spelling@ == before_vec.insert(p as int, ne));
                        let nv = owners_view(by_spelling@);
                        assert forall|i: int| 0 <= i < nv.len() implies #[trigger] nv[i] == ov.insert(p as int, entry)[i] by {
                            if i < p {
                                assert(by_spelling@[i] == before_vec[i]);
                            } else if i > p {
                                assert(by_spelling@[i] == before_vec[i - 1]);
                            }
                        }
                        assert(nv =~= ov.insert(p as int, entry));
                        assert(spec_owners_in(sp, code + 1) =~= seq![(glyph, e)]);
                        assert forall|i: int| 0 <= i < nv.len() implies (#[trigger] nv[i]).1 == spec_owners_in(nv[i].0, code + 1) && nv[i].1.len() > 0 by {
                            if i < p {
                                assert(nv[i] == ov[i]);
                                assert(ov[i].0 != sp);
                            } else if i > p {
                                assert(nv[i] == ov[i - 1]);
                                assert(ov[i - 1].0 != sp);
                            }
                        }
                        assert forall|a: int, b: int| 0 <= a < b < nv.len() implies nv[a].0 != nv[b].0 by {
                            if a < p && b < p {
                            } else if a < p && b == p {
                            } else if a < p && b > p {
                                assert(nv[b] == ov[b - 1]);
                            } else if a == p {
                                assert(nv[b] == ov[b - 1]);
                            } else {
                                assert(nv[a] == ov[a - 1] && nv[b] == ov[b - 1]);
                            }
                        }
                        assert forall|i: int| 0 <= i < nv.len() - 1 implies seq_lt(nv[i].0, #[trigger] nv[i + 1].0) by {
                            if i + 1 < p {
                                assert(nv[i] == ov[i] && nv[i + 1] == ov[i + 1]);
                                assert(seq_lt(ov[i].0, ov[i + 1].0));
                            } else if i + 1 == p {
                                assert(nv[i] == ov[i]);
                                assert(seq_lt(ov[i].0, sp));
                            } else if i == p {
                                assert(nv[i + 1] == ov[p as int]);
                                assert(seq_lt(sp, ov[p as int].0));
                            } else {
                                assert(nv[i] == ov[i - 1] && nv[i + 1] == ov[i]);
                                assert(seq_lt(ov[i - 1].0, ov[(i - 1) + 1].0));
                            }
                        }
                        assert forall|c: int| 0x3300 <= c < code + 1 && #[trigger] spec_candidate(c as char) is Some
                            implies exists|i: int| 0 <= i < nv.len() && nv[i].0 == candidate_spelling(c as char) by {
                            if c < code {
                                let i = choose|i: int| 0 <= i < ov.len() && ov[i].0 == candidate_spelling(c as char);
                                if i < p {
                                    assert(nv[i] == ov[i]);
                                } else {
                                    assert(nv[i + 1] == ov[i]);
                                }
                            } else {
                                assert(nv[p as int].0 == sp);
                            }
                        }
                    }
                }
            },
        }
        code += 1;
    }
    by_spelling
}

/// All owners of a spelling are written with the same cells.
pub open spec fn unambiguous(os: Seq<(char, Seq<u8>)>) -> bool {
    os.len() > 0 && forall|k: int| 0 <= k < os.len() ==> #[trigger] os[k].1 == os[0].1
}

/// The spellings whose owners all agree, each with the owners' cells, in
/// table order.
pub open spec fn spec_unambiguous_spellings(o: Seq<(Seq<char>, Seq<(char, Seq<u8>)>)>) -> Seq<(Seq<char>, Seq<u8>)>
    decreases o.len(),
{
    if o.len() == 0 {
        Seq::empty()
    } else {
        let prev = spec_unambiguous_spellings(o.drop_last());
        let g = o.last();
        if unambiguous(g.1) {
            prev.push((g.0, g.1[0].1))
        } else {
            prev
        }
    }
}

/// The length of a spelling in UTF-8 bytes, as `str::len` reports it.
pub open spec fn byte_len(s: Seq<char>) -> usize {
    vstd::utf8::encode_utf8(s).len() as usize
}

/// Longer spellings first, and in lexicographic order among equal lengths.
pub open spec fn spelling_before(a: Seq<char>, b: Seq<char>) -> bool {
    byte_len(a) > byte_len(b) || (byte_len(a) == byte_len(b) && seq_lt(a, b))
}

pub open spec fn spellings_view(v: Seq<(String, Vec<u8>)>) -> Seq<(Seq<char>, Seq<u8>)> {
    v.map_values(|p: (String, Vec<u8>)| (p.0@, p.1@))
}

/// `out` holds exactly the entries of `f`, in `spelling_before` order.
pub open spec fn is_sorted_spellings(out: Seq<(Seq<char>, Seq<u8>)>, f: Seq<(Seq<char>, Seq<u8>)>) -> bool {
    &&& out.len() == f.len()
    &&& forall|x: (Seq<char>, Seq<u8>)| out.contains(x) <==> f.contains(x)
    &&& forall|i: int| 0 <= i < out.len() - 1 ==> spelling_before(out[i].0, #[trigger] out[i + 1].0)
}

proof fn lemma_spelling_before_total(a: Seq<char>, b: Seq<char>)
    requires
        a != b,
    ensures
        spelling_before(a, b) || spelling_before(b, a),
{
    lemma_seq_lt_total(a, b);
}

proof fn lemma_unambiguous_member(o: Seq<(Seq<char>, Seq<(char, Seq<u8>)>)>, x: (Seq<char>, Seq<u8>))
    ensures
        spec_unambiguous_spellings(o).contains(x) <==> exists|i: int| 0 <= i < o.len() && o[i].0 == x.0
            && unambiguous(o[i].1) && #[trigger] o[i].1[0].1 == x.1,
    decreases o.len(),
{
    if o.len() > 0 {
        lemma_unambiguous_member(o.drop_last(), x);
        let prev = spec_unambiguous_spellings(o.drop_last());
        let g = o.last();
        if spec_unambiguous_spellings(o).contains(x) {
            if unambiguous(g.1) && x == (g.0, g.1[0].1) {
                assert(o[o.len() - 1] == g);
            } else {
                if unambiguous(g.1) {
                    let k = choose|k: int| 0 <= k < prev.push((g.0, g.1[0].1)).len() && prev.push((g.0, g.1[0].1))[k] == x;
                    assert(prev[k] == x);
                }
                assert(prev.contains(x));
                let i = choose|i: int| 0 <= i < o.drop_last().len() && o.drop_last()[i].0 == x.0
                    && unambiguous(o.drop_last()[i].1) && #[trigger] o.drop_last()[i].1[0].1 == x.1;
                assert(o[i] == o.drop_last()[i]);
            }
        } else {
            assert forall|i: int| 0 <= i < o.len() && o[i].0 == x.0 && unambiguous(o[i].1) implies #[trigger] o[i].1[0].1 != x.1 by {
                if i < o.len() - 1 {
                    assert(o[i] == o.drop_last()[i]);
                    if o.drop_last()[i].1[0].1 == x.1 {
                        assert(prev.contains(x));
                        if unambiguous(g.1) {
                            let k = choose|k: int| 0 <= k < prev.len() && prev[k] == x;
                            assert(prev.push((g.0, g.1[0].1))[k] == x);
                        }
                    }
                } else {
                    assert(o[i] == g);
                    if g.1[0].1 == x.1 {
                        assert(prev.push((g.0, g.1[0].1))[prev.len() as int] == x);
                    }
                }
            }
        }
    }
}

fn spelling_before_exec(a: &String, b: &String) -> (r: bool)
    ensures
        r == spelling_before(a@, b@),
{
    let sa = a.as_str();
    let sb = b.as_str();
    let la = sa.len();
    let lb = sb.len();
    assert(la == byte_len(a@) && lb == byte_len(b@));
    la > lb || (la == lb && str_lt(a.as_str(), b.as_str()))
}

fn is_unambiguous(owners: &Vec<(char, Vec<u8>)>) -> (r: bool)
    ensures
        r == unambiguous(owners@.map_values(|o: (char, Vec<u8>)| (o.0, o.1@))),
{
    let ghost v = owners@.map_values(|o: (char, Vec<u8>)| (o.0, o.1@));
    if owners.len() == 0 {
        return false;
    }
    let mut k: usize = 0;
    while k < owners.len()
        invariant
            owners@.len() > 0,
            v == owners@.map_values(|o: (char, Vec<u8>)| (o.0, o.1@)),
            k <= owners@.len(),
            forall|q: int| 0 <= q < k ==> #[trigger] v[q].1 == v[0].1,
        decreases owners@.len() - k,
    {
        if !bytes_eq(&owners[k].1, &owners[0].1) {
            assert(v[k as int].1 != v[0].1);
            return false;
        }
        k += 1;
    }
    true
}

/// Keeps the spellings whose owner glyphs are all written the same way, with
/// those cells, longest first and alphabetical among equal lengths; a
/// spelling whose owners conflict is dropped rather than resolved by its
/// first owner.
pub fn retain_unambiguous_ascii_unit_spellings(owners_by_spelling: Vec<(String, Vec<(char, Vec<u8>)>)>) -> (r: Vec<(String, Vec<u8>)>)
    requires
        forall|i: int, j: int| 0 <= i < j < owners_by_spelling@.len() ==> owners_view(owners_by_spelling@)[i].0
            != owners_view(owners_by_spelling@)[j].0,
    ensures
        is_sorted_spellings(spellings_view(r@), spec_unambiguous_spellings(owners_view(owners_by_spelling@))),
{
    let ghost ov = owners_view(owners_by_spelling@);
    let mut spellings: Vec<(String, Vec<u8>)> = Vec::new();
    let mut i: usize = 0;
    assert(ov.take(0) =~= Seq::<(Seq<char>, Seq<(char, Seq<u8>)>)>::empty());
    assert(spellings_view(spellings@) =~= Seq::<(Seq<char>, Seq<u8>)>::empty());
    while i < owners_by_spelling.len()
        invariant
            i <= owners_by_spelling@.len(),
            ov == owners_view(owners_by_spelling@),
            forall|a: int, b: int| 0 <= a < b < ov.len() ==> ov[a].0 != ov[b].0,
            is_sorted_spellings(spellings_view(spellings@), spec_unambiguous_spellings(ov.take(i as int))),
            forall|k: int| 0 <= k < spellings@.len() ==> exists|q: int| 0 <= q < i && ov[q].0 == #[trigger] spellings_view(spellings@)[k].0,
        decreases owners_by_spelling@.len() - i,
    {
        let ghost out = spellings_view(spellings@);
        let ghost f = spec_unambiguous_spellings(ov.take(i as int));
        proof {
            assert(ov.take(i + 1).drop_last() =~= ov.take(i as int));
            assert(ov.take(i + 1).last() == ov[i as int]);
        }
        if is_unambiguous(&owners_by_spelling[i].1) {
            let key = owners_by_spelling[i].0.clone();
            let cells = copy_bytes(&owners_by_spelling[i].1[0].1);
            let ghost y = (key@, cells@);
            assert(y == (ov[i as int].0, ov[i as int].1[0].1));
            let mut p: usize = 0;
            while p < spellings.len() && spelling_before_exec(&spellings[p].0, &key)
                invariant
                    p <= spellings@.len(),
                    out == spellings_view(spellings@),
                    y.0 == key@,
                    forall|q: int| 0 <= q < p ==> spelling_before(out[q].0, y.0),
                decreases spellings@.len() - p,
            {
                assert(out[p as int].0 == spellings@[p as int].0@);
                p += 1;
            }
            proof {
                if p < out.len() {
                    let q = choose|q: int| 0 <= q < i && ov[q].0 == #[trigger] spellings_view(spellings@)[p as int].0;
                    assert(out[p as int].0 != y.0);
                    lemma_spelling_before_total(out[p as int].0, y.0);
                }
            }
            let ghost before_vec = spellings@;
            let ghost ne = (key, cells);
            spellings.insert(p, (key, cells));
            proof {
                let nv = spellings_view(spellings@);
                assert forall|k: int| 0 <= k < nv.len() implies #[trigger] nv[k] == out.insert(p as int, y)[k] by {
                    if k < p {
                        assert(spellings@[k] == before_vec[k]);
                    } else if k > p {
                        assert(spellings@[k] == before_vec[k - 1]);
                    }
                }
                assert(nv =~= out.insert(p as int, y));
                let nf = spec_unambiguous_spellings(ov.take(i + 1));
                assert(nf == f.push(y));
                assert forall|x: (Seq<char>, Seq<u8>)| nv.contains(x) <==> nf.contains(x) by {
                    if nv.contains(x) {
                        let k = choose|k: int| 0 <= k < nv.len() && nv[k] == x;
                        if k < p {
                            assert(out[k] == x);
                            assert(out.contains(x));
                            let m = choose|m: int| 0 <= m < f.len() && f[m] == x;
                            assert(nf[m] == x);
                        } else if k > p {
                            assert(out[k - 1] == x);
                            assert(out.contains(x));
                            let m = choose|m: int| 0 <= m < f.len() && f[m] == x;
                            assert(nf[m] == x);
                        } else {
                            assert(nf[f.len() as int] == x);
                        }
                    }
                    if nf.contains(x) {
                        let m = choose|m: int| 0 <= m < nf.len() && nf[m] == x;
                        if m < f.len() {
                            assert(f[m] == x);
                            assert(f.contains(x));
                            let k = choose|k: int| 0 <= k < out.len() && out[k] == x;
                            if k < p {
                                assert(nv[k] == x);
                            } else {
                                assert(nv[k + 1] == x);
                            }
                        } else {
                            assert(nv[p as int] == x);
                        }
                    }
                }
                assert forall|k: int| 0 <= k < nv.len() - 1 implies spelling_before(nv[k].0, #[trigger] nv[k + 1].0) by {
                    if k + 1 < p {
                        assert(spelling_before(out[k].0, out[k + 1].0));
                    } else if k + 1 == p {
                        assert(spelling_before(out[k].0, y.0));
                    } else if k == p {
                        assert(nv[k + 1] == out[p as int]);
                    } else {
                        assert(nv[k] == out[k - 1] && nv[k + 1] == out[k]);
                        assert(spelling_before(out[k - 1].0, out[(k - 1) + 1].0));
                    }
                }
                assert forall|k: int| 0 <= k < spellings@.len() implies exists|q: int| 0 <= q < i + 1 && ov[q].0 == #[trigger] spellings_view(spellings@)[k].0 by {
                    if k < p {
                        let q = choose|q: int| 0 <= q < i && ov[q].0 == #[trigger] out[k].0;
                        assert(nv[k] == out[k]);
                    } else if k > p {
                        let q = choose|q: int| 0 <= q < i && ov[q].0 == #[trigger] out[k - 1].0;
                        assert(nv[k] == out[k - 1]);
                    } else {
                        assert(nv[k].0 == ov[i as int].0);
                    }
                }
            }
        } else {
            proof {
                let nf = spec_unambiguous_spellings(ov.take(i + 1));
                assert(nf == f);
            }
        }
        i += 1;
    }
    assert(ov.take(owners_by_spelling@.len() as int) =~= ov);
    spellings
}

proof fn lemma_seq_lt_irreflexive(a: Seq<char>)
    ensures
        !seq_lt(a, a),
    decreases a.len(),
{
    if a.len() > 0 {
        lemma_seq_lt_irreflexive(a.drop_first());
    }
}

proof fn lemma_seq_lt_transitive(a: Seq<char>, b: Seq<char>, c: Seq<char>)
    requires
        seq_lt(a, b),
        seq_lt(b, c),
    ensures
        seq_lt(a, c),
    decreases a.len(),
{
    if a.len() > 0 && b.len() > 0 && c.len() > 0 && a[0] == b[0] && b[0] == c[0] {
        lemma_seq_lt_transitive(a.drop_first(), b.drop_first(), c.drop_first());
    }
}

proof fn lemma_sorted_pairwise(out: Seq<(Seq<char>, Seq<u8>)>, i: int, j: int)
    requires
        0 <= i < j < out.len(),
        forall|k: int| 0 <= k < out.len() - 1 ==> spelling_before(out[k].0, #[trigger] out[k + 1].0),
    ensures
        spelling_before(out[i].0, out[j].0),
    decreases j - i,
{
    if j > i + 1 {
        let m = j - 1;
        lemma_sorted_pairwise(out, i, m);
        assert(spelling_before(out[m].0, out[m + 1].0));
        if byte_len(out[i].0) == byte_len(out[m].0) && byte_len(out[m].0) == byte_len(out[j].0) {
            lemma_seq_lt_transitive(out[i].0, out[m].0, out[j].0);
        }
    } else {
        assert(spelling_before(out[i].0, out[i + 1].0));
    }
}

/// The unambiguous spellings, as retained: a spelling stays, with its
/// owners' cells, exactly when it has owners and they all agree; no
/// spelling occurs twice; longer spellings come first, and equal lengths in
/// lexicographic order.
pub proof fn lemma_retained_spellings(
    o: Seq<(Seq<char>, Seq<(char, Seq<u8>)>)>,
    out: Seq<(Seq<char>, Seq<u8>)>,
)
    requires
        is_sorted_spellings(out, spec_unambiguous_spellings(o)),
    ensures
        forall|x: (Seq<char>, Seq<u8>)| out.contains(x) <==> exists|i: int| 0 <= i < o.len()
            && o[i].0 == x.0 && unambiguous(o[i].1) && #[trigger] o[i].1[0].1 == x.1,
        forall|i: int, j: int| 0 <= i < j < out.len() ==> spelling_before(out[i].0, out[j].0),
        forall|i: int, j: int| 0 <= i < j < out.len() ==> out[i].0 != out[j].0,
{
    assert forall|x: (Seq<char>, Seq<u8>)| out.contains(x) <==> exists|i: int| 0 <= i < o.len()
        && o[i].0 == x.0 && unambiguous(o[i].1) && #[trigger] o[i].1[0].1 == x.1 by {
        lemma_unambiguous_member(o, x);
    }
    assert forall|i: int, j: int| 0 <= i < j < out.len() implies spelling_before(out[i].0, out[j].0) by {
        lemma_sorted_pairwise(out, i, j);
    }
    assert forall|i: int, j: int| 0 <= i < j < out.len() implies out[i].0 != out[j].0 by {
        lemma_sorted_pairwise(out, i, j);
        lemma_seq_lt_irreflexive(out[i].0);
    }
}

proof fn lemma_owners_in_member(k: Seq<char>, hi: int, n: int)
    requires
        hi <= 0x3400,
        0 <= n < spec_owners_in(k, hi).len(),
    ensures
        0x3300 <= spec_owners_in(k, hi)[n].0 as int && (spec_owners_in(k, hi)[n].0 as int) < hi,
        spec_candidate(spec_owners_in(k, hi)[n].0) == Some((k, spec_owners_in(k, hi)[n].1)),
    decreases hi - 0x3300,
{
    let prev = spec_owners_in(k, hi - 1);
    if n < prev.len() {
        lemma_owners_in_member(k, hi - 1, n);
    }
}

/// Each owner of a spelling in the owner table is a glyph of the CJK
/// compatibility block whose NFKC form is that spelling, all ASCII
/// letters, and its cells are those its rule writes; no spelling is listed
/// without an owner.
pub proof fn lemma_owner_table_entries(o: Seq<(Seq<char>, Seq<(char, Seq<u8>)>)>)
    requires
        is_owner_table(o, 0x3400),
    ensures
        forall|i: int| 0 <= i < o.len() ==> (#[trigger] o[i]).1.len() > 0,
        forall|i: int, n: int| 0 <= i < o.len() && 0 <= n < o[i].1.len() ==> {
            let g = #[trigger] o[i].1[n];
            &&& 0x3300 <= g.0 as int && (g.0 as int) < 0x3400
            &&& nfkc_of(g.0) == o[i].0
            &&& all_ascii_letters(o[i].0)
            &&& spec_candidate(g.0) == Some((o[i].0, g.1))
        },
{
    assert forall|i: int, n: int| 0 <= i < o.len() && 0 <= n < o[i].1.len() implies {
        let g = #[trigger] o[i].1[n];
        &&& 0x3300 <= g.0 as int && (g.0 as int) < 0x3400
        &&& nfkc_of(g.0) == o[i].0
        &&& all_ascii_letters(o[i].0)
        &&& spec_candidate(g.0) == Some((o[i].0, g.1))
    } by {
        assert(o[i].1 == spec_owners_in(o[i].0, 0x3400));
        lemma_owners_in_member(o[i].0, 0x3400, n);
    }
}

/// An ASCII spelling of a compatibility unit glyph whose owners all agree,
/// with their cells.
pub open spec fn is_unit_spelling(x: (Seq<char>, Seq<u8>)) -> bool {
    &&& exists|code: int| 0x3300 <= code < 0x3400 && #[trigger] spec_candidate(code as char) is Some
        && candidate_spelling(code as char) == x.0
    &&& unambiguous(spec_owners_in(x.0, 0x3400))
    &&& x.1 == spec_owners_in(x.0, 0x3400)[0].1
}

/// The table of unit spellings: every unambiguous spelling once, longest
/// first, alphabetical among equal lengths.
pub open spec fn is_unit_spelling_table(t: Seq<(Seq<char>, Seq<u8>)>) -> bool {
    &&& forall|x: (Seq<char>, Seq<u8>)| t.contains(x) <==> is_unit_spelling(x)
    &&& forall|i: int| 0 <= i < t.len() - 1 ==> spelling_before(t[i].0, #[trigger] t[i + 1].0)
}

proof fn lemma_owners_in_witness(k: Seq<char>, hi: int)
    requires
        spec_owners_in(k, hi).len() > 0,
    ensures
        exists|code: int| 0x3300 <= code < hi && #[trigger] spec_candidate(code as char) is Some
            && candidate_spelling(code as char) == k,
{
    if !(exists|code: int| 0x3300 <= code < hi && #[trigger] spec_candidate(code as char) is Some
        && candidate_spelling(code as char) == k) {
        lemma_owners_in_empty(k, hi);
    }
}

/// The unambiguous ASCII spellings of the compatibility unit glyphs.
pub fn compatibility_ascii_unit_spellings() -> (r: Vec<(String, Vec<u8>)>)
    ensures
        is_unit_spelling_table(spellings_view(r@)),
{
    let owners = compatibility_ascii_unit_owners();
    let ghost o = owners_view(owners@);
    let r = retain_unambiguous_ascii_unit_spellings(owners);
    proof {
        let t = spellings_view(r@);
        assert forall|x: (Seq<char>, Seq<u8>)| t.contains(x) <==> is_unit_spelling(x) by {
            lemma_unambiguous_member(o, x);
            if t.contains(x) {
                let i = choose|i: int| 0 <= i < o.len() && o[i].0 == x.0 && unambiguous(o[i].1)
                    && #[trigger] o[i].1[0].1 == x.1;
                assert(o[i].1 == spec_owners_in(o[i].0, 0x3400));
                lemma_owners_in_witness(x.0, 0x3400);
            }
            if is_unit_spelling(x) {
                let code = choose|code: int| 0x3300 <= code < 0x3400 && #[trigger] spec_candidate(code as char) is Some
                    && candidate_spelling(code as char) == x.0;
                let i = choose|i: int| 0 <= i < o.len() && o[i].0 == candidate_spelling(code as char);
                assert(o[i].1 == spec_owners_in(o[i].0, 0x3400));
                assert(o[i].1[0].1 == x.1);
            }
        }
    }
    r
}

/// The longest unit spelling that `tail` starts with.
pub open spec fn is_longest_unit_prefix(tail: Seq<char>, x: (Seq<char>, Seq<u8>)) -> bool {
    &&& is_unit_spelling(x)
    &&& starts_with(tail, x.0)
    &&& forall|y: (Seq<char>, Seq<u8>)| is_unit_spelling(y) && starts_with(tail, y.0) ==> y.0.len() <= x.0.len()
}

/// The compatibility-derived unit spelling at the start of `tail`, if any.
pub open spec fn spec_derived_unit(tail: Seq<char>) -> Option<(Seq<char>, Seq<u8>)> {
    if exists|x: (Seq<char>, Seq<u8>)| is_longest_unit_prefix(tail, x) {
        Some(choose|x: (Seq<char>, Seq<u8>)| is_longest_unit_prefix(tail, x))
    } else {
        None
    }
}

proof fn lemma_longest_unit_prefix_unique(tail: Seq<char>, x: (Seq<char>, Seq<u8>), y: (Seq<char>, Seq<u8>))
    requires
        is_longest_unit_prefix(tail, x),
        is_longest_unit_prefix(tail, y),
    ensures
        x == y,
{
    assert(x.0.len() == y.0.len());
    assert(x.0 =~= y.0) by {
        assert forall|k: int| 0 <= k < x.0.len() implies x.0[k] == y.0[k] by {
            assert(tail.subrange(0, x.0.len() as int)[k] == tail[k]);
            assert(tail.subrange(0, y.0.len() as int)[k] == tail[k]);
        }
    }
}

/// Rule 69 after a number: an explicit ASCII unit, unless a longer
/// compatibility-derived spelling starts there, and never one whose cells
/// disagree with the derived spelling of the same length.
pub open spec fn spec_encode_numeric_ascii_unit(word: Seq<char>, index: int) -> Option<(Seq<u8>, int)> {
    let derived = spec_derived_unit(word.subrange(index, word.len() as int));
    match spec_encode_ascii_unit(word, index) {
        Some((enc, consumed)) => match derived {
            Some((cand, denc)) => if consumed == cand.len() {
                if enc == denc { Some((enc, consumed)) } else { None }
            } else if consumed < cand.len() {
                Some((denc, cand.len() as int))
            } else {
                Some((enc, consumed))
            },
            None => Some((enc, consumed)),
        },
        None => match derived {
            Some((cand, denc)) => Some((denc, cand.len() as int)),
            None => None,
        },
    }
}

/// Numeric-compact Rule 69 path. Compatibility-derived spellings are limited
/// to this measured boundary so an unrelated English word after a separated
/// number cannot become a unit merely because it starts with a unit
/// spelling. Lengths are counted in characters (unit spellings are ASCII).
pub fn encode_numeric_ascii_unit(word: &[char], index: usize) -> (r: Option<(Vec<u8>, usize)>)
    requires
        index <= word@.len(),
    ensures
        r is Some <==> spec_encode_numeric_ascii_unit(word@, index as int) is Some,
        r matches Some((cells, n)) ==> spec_encode_numeric_ascii_unit(word@, index as int) == Some((cells@, n as int)),
        r matches Some((_, n)) ==> index + n <= word@.len(),
{
    let tail = &word[index..word.len()];
    let explicit = encode_ascii_unit(word, index);
    let spellings = compatibility_ascii_unit_spellings();
    let ghost t = spellings_view(spellings@);
    let mut best: Option<usize> = None;
    let mut best_len: usize = 0;
    let mut k: usize = 0;
    while k < spellings.len()
        invariant
            k <= spellings@.len(),
            t == spellings_view(spellings@),
            tail@ == word@.subrange(index as int, word@.len() as int),
            best is Some ==> best->0 < k && starts_with(tail@, t[best->0 as int].0) && best_len == t[best->0 as int].0.len(),
            forall|q: int| 0 <= q < k && starts_with(tail@, #[trigger] t[q].0) ==> best is Some && t[q].0.len() <= best_len,
        decreases spellings@.len() - k,
    {
        let unit = spellings[k].0.as_str();
        assert(unit@ == t[k as int].0);
        if chars_start_with_ascii(tail, unit) {
            let len = unit.unicode_len();
            if best.is_none() || len >= best_len {
                best = Some(k);
                best_len = len;
            }
        }
        k += 1;
    }
    let ghost derived = spec_derived_unit(tail@);
    proof {
        match best {
            Some(b) => {
                let x = t[b as int];
                assert(t.contains(x));
                assert forall|y: (Seq<char>, Seq<u8>)| is_unit_spelling(y) && starts_with(tail@, y.0) implies y.0.len() <= x.0.len() by {
                    assert(t.contains(y));
                    let q = choose|q: int| 0 <= q < t.len() && t[q] == y;
                }
                assert(is_longest_unit_prefix(tail@, x));
                let c = choose|x: (Seq<char>, Seq<u8>)| is_longest_unit_prefix(tail@, x);
                lemma_longest_unit_prefix_unique(tail@, x, c);
                assert(derived == Some(x));
            },
            None => {
                assert forall|x: (Seq<char>, Seq<u8>)| !is_longest_unit_prefix(tail@, x) by {
                    if is_longest_unit_prefix(tail@, x) {
                        assert(t.contains(x));
                        let q = choose|q: int| 0 <= q < t.len() && t[q] == x;
                    }
                }
                assert(derived is None);
            },
        }
    }

    if let Some((encoded, consumed)) = explicit {
        match best {
            Some(b) => {
                let candidate_len = spellings[b].0.as_str().unicode_len();
                if consumed == candidate_len {
                    return if bytes_eq(&encoded, &spellings[b].1) {
                        Some((encoded, consumed))
                    } else {
                        None
                    };
                } else if consumed > candidate_len {
                    return Some((encoded, consumed));
                }
            },
            None => {
                return Some((encoded, consumed));
            },
        }
    }
    match best {
        Some(b) => {
            let n = spellings[b].0.as_str().unicode_len();
            Some((copy_bytes(&spellings[b].1), n))
        },
        None => None,
    }
}

/// The explicit unit table does not spell all of `x`'s letters with other
/// cells than `x`'s glyphs have.
pub open spec fn explicit_unit_agrees(x: (Seq<char>, Seq<u8>)) -> bool {
    match spec_encode_ascii_unit(x.0, 0) {
        Some((cells, n)) => n == x.0.len() ==> cells == x.1,
        None => true,
    }
}

/// Every ASCII spelling derived from the compatibility unit glyphs, whose
/// owner glyphs all agree, is recognised after a number: it is consumed whole
/// and written with its owners' cells, unless the explicit unit table spells
/// the very same letters with other cells.
pub proof fn lemma_derived_spelling_recognized(x: (Seq<char>, Seq<u8>))
    requires
        is_unit_spelling(x),
        explicit_unit_agrees(x),
    ensures
        spec_encode_numeric_ascii_unit(x.0, 0) == Some((x.1, x.0.len() as int)),
{
    let word = x.0;
    let tail = word.subrange(0, word.len() as int);
    assert(tail =~= word);
    assert(starts_with(tail, x.0));
    assert(is_longest_unit_prefix(tail, x));
    let c = choose|y: (Seq<char>, Seq<u8>)| is_longest_unit_prefix(tail, y);
    lemma_longest_unit_prefix_unique(tail, x, c);
    assert(spec_derived_unit(tail) == Some(x));
    if let Some((_, n)) = spec_encode_ascii_unit(word, 0) {
        lemma_best_ascii_unit_prefix(tail, ascii_unit_count());
        assert(n <= word.len());
    }
}

/// The end of the run of digits, commas and full stops that starts at `i`.
pub open spec fn numeric_run_end(s: Seq<char>, i: int) -> int
    decreases s.len() - i,
{
    if i < 0 || i >= s.len() {
        if i < 0 { 0 } else { i }
    } else if !(spec_is_ascii_digit(s[i]) || s[i] == ',' || s[i] == '.') {
        i
    } else {
        numeric_run_end(s, i + 1)
    }
}

/// A word that is a number followed by a unit: the number, the unit's
/// cells, and the characters they take. The number must be followed by
/// something, and the unit must not run into further letters.
pub open spec fn spec_parse_numeric_ascii_unit_prefix(word: Seq<char>) -> Option<(Seq<char>, Seq<u8>, int)> {
    let n = numeric_run_end(word, 0);
    if n == 0 || n >= word.len() {
        None
    } else {
        match spec_encode_numeric_ascii_unit(word, n) {
            Some((unit, consumed)) => if n + consumed < word.len() && spec_is_ascii_alphabetic(word[n + consumed]) {
                None
            } else {
                Some((word.subrange(0, n), unit, n + consumed))
            },
            None => None,
        }
    }
}

pub fn parse_numeric_ascii_unit_prefix(word: &[char]) -> (r: Option<(String, Vec<u8>, usize)>)
    ensures
        r is Some <==> spec_parse_numeric_ascii_unit_prefix(word@) is Some,
        r matches Some((numeric, unit, consumed)) ==> spec_parse_numeric_ascii_unit_prefix(word@) == Some((numeric@, unit@, consumed as int)),
{
    let mut numeric_len: usize = 0;
    while numeric_len < word.len() && (is_ascii_digit(word[numeric_len]) || word[numeric_len] == ','
        || word[numeric_len] == '.')
        invariant
            numeric_len <= word@.len(),
            numeric_run_end(word@, numeric_len as int) == numeric_run_end(word@, 0),
        decreases word@.len() - numeric_len,
    {
        numeric_len += 1;
    }
    if numeric_len == 0 || numeric_len >= word.len() {
        return None;
    }
    let mut digits: Vec<char> = Vec::new();
    let mut i: usize = 0;
    while i < numeric_len
        invariant
            i <= numeric_len < word@.len(),
            digits@ == word@.subrange(0, i as int),
        decreases numeric_len - i,
    {
        digits.push(word[i]);
        i += 1;
        assert(digits@ =~= word@.subrange(0, i as int));
    }
    let numeric = crate::text::string_from_chars(&digits);
    let (unit, consumed) = match encode_numeric_ascii_unit(word, numeric_len) {
        Some(found) => found,
        None => return None,
    };
    if consumed < word.len() - numeric_len && is_ascii_alphabetic(word[numeric_len + consumed]) {
        return None;
    }
    Some((numeric, unit, numeric_len + consumed))
}

proof fn lemma_numeric_run(s: Seq<char>, i: int)
    requires
        0 <= i <= s.len(),
    ensures
        i <= numeric_run_end(s, i) <= s.len(),
        forall|j: int| i <= j < numeric_run_end(s, i) ==> (spec_is_ascii_digit(#[trigger] s[j])
            || s[j] == ',' || s[j] == '.'),
        numeric_run_end(s, i) < s.len() ==> !(spec_is_ascii_digit(s[numeric_run_end(s, i)])
            || s[numeric_run_end(s, i)] == ',' || s[numeric_run_end(s, i)] == '.'),
    decreases s.len() - i,
{
    if i < s.len() && (spec_is_ascii_digit(s[i]) || s[i] == ',' || s[i] == '.') {
        lemma_numeric_run(s, i + 1);
    }
}

proof fn lemma_numeric_ascii_unit_fits(word: Seq<char>, index: int)
    requires
        0 <= index <= word.len(),
    ensures
        spec_encode_numeric_ascii_unit(word, index) matches Some((_, n)) ==> 0 <= n <= word.len() - index,
{
    let tail = word.subrange(index, word.len() as int);
    if let Some((_, n)) = spec_encode_ascii_unit(word, index) {
        lemma_best_ascii_unit_prefix(tail, ascii_unit_count());
    }
    if let Some(x) = spec_derived_unit(tail) {
        assert(is_longest_unit_prefix(tail, x));
    }
}

/// A number followed by a unit: the number is the longest run of digits,
/// commas and full stops at the start of the word, which must be neither
/// empty nor the whole word; the unit is what the numeric path reads right
/// after it, and no letter follows the unit.
pub proof fn lemma_numeric_unit_prefix_shape(word: Seq<char>)
    ensures
        ({
            let n = numeric_run_end(word, 0);
            &&& (n == 0 || n >= word.len()) ==> spec_parse_numeric_ascii_unit_prefix(word) is None
            &&& forall|j: int| 0 <= j < n ==> (spec_is_ascii_digit(#[trigger] word[j]) || word[j] == ','
                || word[j] == '.')
            &&& spec_parse_numeric_ascii_unit_prefix(word) matches Some((numeric, unit, consumed)) ==> {
                &&& numeric == word.subrange(0, n)
                &&& spec_encode_numeric_ascii_unit(word, n) == Some((unit, consumed - n))
                &&& n <= consumed <= word.len()
                &&& (consumed < word.len() ==> !spec_is_ascii_alphabetic(word[consumed]))
            }
        }),
{
    lemma_numeric_run(word, 0);
    let n = numeric_run_end(word, 0);
    if 0 < n && n < word.len() {
        lemma_numeric_ascii_unit_fits(word, n);
    }
}

// ---------------------------------------------------------------------------
// The rule.

/// `n - 1`, but not below zero.
pub open spec fn one_less(n: int) -> int {
    if n > 0 { n - 1 } else { 0 }
}

/// The state after a unit that closes the Roman section.
pub open spec fn unit_state(old: crate::rules::context::EncoderState, new: crate::rules::context::EncoderState) -> bool {
    &&& !new.is_english
    &&& !new.needs_english_continuation
    &&& new.english_indicator == old.english_indicator
    &&& new.is_big_english == old.is_big_english
    &&& new.english_dominant_no_indicator == old.english_dominant_no_indicator
    &&& new.english_dominant_wrap_active == old.english_dominant_wrap_active
    &&& new.parenthesis_stack@ == old.parenthesis_stack@
}

/// A number at the start of the word followed by a unit (`180cm`).
pub open spec fn numeric_unit_case(ctx: RuleContext) -> bool {
    *ctx.char_type is Number && ctx.index == 0 && spec_parse_numeric_ascii_unit_prefix(ctx.word_chars@) is Some
}

/// A Roman unit spelling after a number or inside a unit chain.
pub open spec fn ascii_unit_case(ctx: RuleContext) -> bool {
    &&& *ctx.char_type is English
    &&& (numeric_or_unit_context(ctx) || (ctx.index == 0 && spec_word_looks_like_unit_chain(ctx.word_chars@)))
    &&& spec_encode_ascii_unit(ctx.word_chars@, ctx.index as int) is Some
}

pub open spec fn percent_case(ctx: RuleContext) -> bool {
    ctx.word_chars@[ctx.index as int] == '%' && spec_encode_percent_abbreviation(ctx.word_chars@, ctx.index as int) is Some
}

/// The unit after the micro sign, without its own Roman indicator.
pub open spec fn micro_unit_cells(word: Seq<char>, index: int) -> (Seq<u8>, int) {
    match spec_encode_ascii_unit(word, index + 1) {
        Some((cells, len)) => (
            if cells.len() > 0 && cells[0] == ROMAN_INDICATOR { cells.drop_first() } else { cells },
            len,
        ),
        None => (seq![13u8], 0),
    }
}

/// Whether the rule applies at the context.
pub open spec fn spec_rule69_matches(ctx: RuleContext) -> bool {
    ||| (*ctx.char_type is Symbol && spec_is_rule_69_symbol(ctx.char_type->Symbol_0)
        && measurement_context(ctx, ctx.char_type->Symbol_0))
    ||| numeric_unit_case(ctx)
    ||| ascii_unit_case(ctx)
}

/// The output, the skip count and the state are as before the call.
pub open spec fn unchanged(old: RuleContext, new: RuleContext) -> bool {
    &&& new.result@ == old.result@
    &&& *new.skip_count == *old.skip_count
    &&& *new.state == *old.state
}

/// The message for a character that is not a rule 69 unit symbol.
pub open spec fn not_a_unit_symbol_message() -> Seq<char> {
    "not a rule 69 unit symbol"@
}

/// What applying the rule does.
pub open spec fn spec_rule69_apply(old: RuleContext, new: RuleContext, r: Result<RuleResult, String>) -> bool {
    let s = old.word_chars@;
    let i = old.index as int;
    let c = s[i];
    if numeric_unit_case(old) {
        let (numeric, unit, consumed) = spec_parse_numeric_ascii_unit_prefix(s)->0;
        match crate::number::spec_encode_numeric(numeric) {
            None => {
                &&& r matches Err(m) && m@ == "not a digit"@
                &&& unchanged(old, new)
            },
            Some(number) => {
                &&& r == Ok::<RuleResult, String>(RuleResult::Consumed)
                &&& new.result@ == old.result@ + number + spec_omit_terminator(unit, s, consumed)
                &&& *new.skip_count == one_less(consumed)
                &&& unit_state(*old.state, *new.state)
            },
        }
    } else if ascii_unit_case(old) {
        let (cells, consumed) = spec_encode_ascii_unit(s, i)->0;
        &&& r == Ok::<RuleResult, String>(RuleResult::Consumed)
        &&& new.result@ == spec_trim_recent_english_indicator(old.result@) + spec_omit_terminator(cells, s, i + consumed)
        &&& *new.skip_count == one_less(consumed)
        &&& unit_state(*old.state, *new.state)
    } else if percent_case(old) {
        let (cells, consumed) = spec_encode_percent_abbreviation(s, i)->0;
        let space: Seq<u8> = if i + consumed < s.len() && spec_is_korean_char(s[i + consumed]) { seq![0u8] } else { Seq::empty() };
        &&& r == Ok::<RuleResult, String>(RuleResult::Consumed)
        &&& new.result@ == old.result@ + cells + space
        &&& *new.skip_count == one_less(consumed)
        &&& *new.state == *old.state
    } else if c == 'μ' {
        let (unit, unit_len) = micro_unit_cells(s, i);
        let consumed = 1 + unit_len;
        &&& r == Ok::<RuleResult, String>(RuleResult::Consumed)
        &&& new.result@ == spec_trim_recent_english_indicator(old.result@)
            + spec_omit_terminator(seq![ROMAN_INDICATOR, 40u8, 13u8] + unit, s, i + consumed)
        &&& *new.skip_count == one_less(consumed)
        &&& unit_state(*old.state, *new.state)
    } else if spec_compatibility_unit_decomposition(c) is Some {
        let parts = nfkc_of(c);
        match spec_encode_compatibility_unit(parts, !chain_continues_before(s, i), !chain_continues_after(s, i)) {
            None => {
                &&& r matches Err(m) && m@ == spec_unit_error(parts, 0)
                &&& unchanged(old, new)
            },
            Some(cells) => {
                &&& r == Ok::<RuleResult, String>(RuleResult::Consumed)
                &&& new.result@ == old.result@ + spec_omit_terminator(cells, s, i + 1)
                &&& *new.skip_count == *old.skip_count
                &&& unit_state(*old.state, *new.state)
            },
        }
    } else {
        match spec_single_mapping(c) {
            // The engine calls the rule only where it matches, which puts
            // the character here.
            None => {
                &&& r matches Err(m) && m@ == not_a_unit_symbol_message()
                &&& unchanged(old, new)
            },
            Some(symbol) => {
                let space: Seq<u8> = if spec_separator_after(c, old.spec_next_char()) { seq![0u8] } else { Seq::empty() };
                &&& r == Ok::<RuleResult, String>(RuleResult::Consumed)
                &&& new.result@ == old.result@ + spec_omit_terminator(spec_cells(symbol), s, i + 1) + space
                &&& *new.skip_count == *old.skip_count
                &&& *new.state == *old.state
            },
        }
    }
}

/// After a number, a Roman unit that a closing mark follows is written
/// without its terminator ⠲: `173cm,` gives ⠼⠁⠛⠉⠴⠉⠍.
pub proof fn lemma_numeric_unit_before_closing_mark(
    before: RuleContext,
    after: RuleContext,
    r: Result<RuleResult, String>,
)
    requires
        spec_rule69_apply(before, after, r),
        numeric_unit_case(before),
        r is Ok,
        ({
            let (_, unit, consumed) = spec_parse_numeric_ascii_unit_prefix(before.word_chars@)->0;
            &&& 0 <= consumed < before.word_chars@.len()
            &&& closing_marks().contains(before.word_chars@[consumed])
            &&& unit.len() > 0
            &&& unit.last() == 50
        }),
    ensures
        ({
            let (numeric, unit, _) = spec_parse_numeric_ascii_unit_prefix(before.word_chars@)->0;
            output_of(after) == output_of(before) + crate::number::spec_encode_numeric(numeric)->0
                + unit.drop_last()
        }),
{
    let (_, unit, consumed) = spec_parse_numeric_ascii_unit_prefix(before.word_chars@)->0;
    lemma_terminator_dropped_before_closing_mark(unit, before.word_chars@, consumed);
}

fn set_unit_state(ctx: &mut RuleContext)
    ensures
        final(ctx).same_input(old(ctx)),
        final(ctx).result@ == old(ctx).result@,
        *final(ctx).skip_count == *old(ctx).skip_count,
        unit_state(*old(ctx).state, *final(ctx).state),
{
    ctx.state.is_english = false;
    ctx.state.needs_english_continuation = false;
}

fn trim_context_indicator(ctx: &mut RuleContext)
    ensures
        final(ctx).same_input(old(ctx)),
        final(ctx).result@ == spec_trim_recent_english_indicator(old(ctx).result@),
        *final(ctx).skip_count == *old(ctx).skip_count,
        *final(ctx).state == *old(ctx).state,
{
    trim_recent_english_indicator(ctx.result);
}

fn apply_micro(ctx: &mut RuleContext) -> (r: Result<RuleResult, String>)
    requires
        old(ctx).wf(),
        old(ctx).word_chars@[old(ctx).index as int] == 'μ',
    ensures
        final(ctx).same_input(old(ctx)),
        ({
            let s = old(ctx).word_chars@;
            let i = old(ctx).index as int;
            let (unit, unit_len) = micro_unit_cells(s, i);
            let consumed = 1 + unit_len;
            &&& r == Ok::<RuleResult, String>(RuleResult::Consumed)
            &&& final(ctx).result@ == spec_trim_recent_english_indicator(old(ctx).result@)
                + spec_omit_terminator(seq![ROMAN_INDICATOR, 40u8, 13u8] + unit, s, i + consumed)
            &&& *final(ctx).skip_count == one_less(consumed)
            &&& unit_state(*old(ctx).state, *final(ctx).state)
        }),
{
    let len = ctx.word_chars.len();
    trim_context_indicator(ctx);
    proof { reveal_strlit("⠴⠨⠍"); reveal_strlit("⠍"); }
    let mut encoded = encode_unicode_cells("⠴⠨⠍");
    assert(encoded@ == seq![ROMAN_INDICATOR, 40u8, 13u8]);
    let mut consumed = 1usize;
    let ghost head = encoded@;
    if let Some((unit_encoded, unit_len)) = encode_ascii_unit(ctx.word_chars, ctx.index + 1) {
        let mut unit_without_prefix = unit_encoded;
        if unit_without_prefix.len() > 0 && unit_without_prefix[0] == ROMAN_INDICATOR {
            let ghost u = unit_without_prefix@;
            unit_without_prefix.remove(0);
            assert(unit_without_prefix@ =~= u.drop_first());
        }
        let ghost tail = unit_without_prefix@;
        encoded.append(&mut unit_without_prefix);
        assert(encoded@ =~= head + tail);
        consumed += unit_len;
    } else {
        let mut m = encode_unicode_cells("⠍");
        let ghost tail = m@;
        encoded.append(&mut m);
        assert(encoded@ =~= head + tail);
    }
    omit_roman_terminator_before_boundary(&mut encoded, ctx.word_chars, ctx.index + consumed);
    ctx.emit_slice(encoded.as_slice());
    set_unit_state(ctx);
    *ctx.skip_count = consumed.saturating_sub(1);
    Ok(RuleResult::Consumed)
}

pub struct Rule69;

impl BrailleRule for Rule69 {
    fn meta(&self) -> (r: RuleMeta)
        ensures
            r.section@ == "69"@,
            r.subsection is None,
            r.name@ == "measurement_symbols"@,
            r.standard_ref@ == "2024 Korean Braille Standard, Ch.6 Art.69"@,
            r.description@ == "Measurement and scientific unit symbols"@,
    {
        meta()
    }

    fn phase(&self) -> (r: Phase)
        ensures
            r == Phase::CoreEncoding,
    {
        Phase::CoreEncoding
    }

    fn priority(&self) -> (r: u16)
        ensures
            r == 90,
    {
        90
    }

    fn matches(&self, ctx: &RuleContext) -> (r: bool)
        ensures
            r == spec_rule69_matches(*ctx),
    {
        let symbol_case = match ctx.char_type {
            CharType::Symbol(c) => is_rule_69_symbol(*c) && is_symbol_measurement_context(ctx, *c),
            _ => false,
        };
        let number_case = match ctx.char_type {
            CharType::Number(_) => ctx.index == 0 && parse_numeric_ascii_unit_prefix(ctx.word_chars).is_some(),
            _ => false,
        };
        let english_case = match ctx.char_type {
            CharType::English(_) => (is_numeric_or_unit_context(ctx) || (ctx.index == 0
                && word_looks_like_unit_chain(ctx.word_chars))) && ctx.index <= ctx.word_chars.len()
                && encode_ascii_unit(ctx.word_chars, ctx.index).is_some(),
            _ => false,
        };
        symbol_case || number_case || english_case
    }

    #[verifier::rlimit(60)]
    fn apply(&self, ctx: &mut RuleContext) -> (r: Result<RuleResult, String>)
        ensures
            final(ctx).same_input(old(ctx)),
            spec_rule69_apply(*old(ctx), *final(ctx), r),
    {
        let ghost old_ctx = *ctx;
        let index = ctx.index;
        let len = ctx.word_chars.len();
        let is_number = match ctx.char_type {
            CharType::Number(_) => true,
            _ => false,
        };
        if is_number && index == 0 {
            if let Some((numeric, mut unit, consumed)) = parse_numeric_ascii_unit_prefix(ctx.word_chars) {
                omit_roman_terminator_before_boundary(&mut unit, ctx.word_chars, consumed);
                let n = numeric.as_str().unicode_len();
                let mut digits: Vec<char> = Vec::new();
                let mut k: usize = 0;
                while k < n
                    invariant
                        k <= n == numeric@.len(),
                        digits@ == numeric@.subrange(0, k as int),
                    decreases n - k,
                {
                    digits.push(numeric.as_str().get_char(k));
                    k += 1;
                    assert(digits@ =~= numeric@.subrange(0, k as int));
                }
                assert(numeric@.subrange(0, n as int) == numeric@);
                let mut encoded = crate::number::encode_numeric(digits.as_slice())?;
                let ghost number = encoded@;
                let ghost u = unit@;
                encoded.append(&mut unit);
                assert(encoded@ =~= number + u);
                let ghost before = ctx.result@;
                ctx.emit_slice(encoded.as_slice());
                set_unit_state(ctx);
                *ctx.skip_count = consumed.saturating_sub(1);
                proof {
                    let (nm, un, co) = spec_parse_numeric_ascii_unit_prefix(old_ctx.word_chars@)->0;
                    assert(nm == numeric@ && co == consumed);
                    assert(ctx.result@ == old_ctx.result@ + number + spec_omit_terminator(un, old_ctx.word_chars@, co));
                    assert(*ctx.skip_count == one_less(co));
                    assert(unit_state(*old_ctx.state, *ctx.state));
                    assert(numeric_unit_case(old_ctx));
                }
                return Ok(RuleResult::Consumed);
            }
        }

        let is_english = match ctx.char_type {
            CharType::English(_) => true,
            _ => false,
        };
        if is_english && (is_numeric_or_unit_context(ctx) || (index == 0
            && word_looks_like_unit_chain(ctx.word_chars))) {
            if let Some((mut encoded, consumed)) = encode_ascii_unit(ctx.word_chars, index) {
                omit_roman_terminator_before_boundary(&mut encoded, ctx.word_chars, index + consumed);
                trim_context_indicator(ctx);
                ctx.emit_slice(encoded.as_slice());
                set_unit_state(ctx);
                *ctx.skip_count = consumed.saturating_sub(1);
                return Ok(RuleResult::Consumed);
            }
        }

        let current = ctx.current_char();
        if current == '%' {
            if let Some((encoded, consumed)) = encode_percent_abbreviation(ctx.word_chars, index) {
                assert(!numeric_unit_case(old_ctx));
                assert(!ascii_unit_case(old_ctx));
                assert(percent_case(old_ctx));
                let ghost before = ctx.result@;
                ctx.emit_slice(encoded.as_slice());
                *ctx.skip_count = consumed.saturating_sub(1);
                if index + consumed < ctx.word_chars.len() && is_korean_char(ctx.word_chars[index + consumed]) {
                    ctx.emit(0);
                }
                proof {
                    let s = old_ctx.word_chars@;
                    let i = old_ctx.index as int;
                    let space: Seq<u8> = if i + consumed < s.len() && spec_is_korean_char(s[i + consumed]) { seq![0u8] } else { Seq::empty() };
                    assert(ctx.result@ =~= old_ctx.result@ + encoded@ + space);
                    assert(*ctx.state == *old_ctx.state);
                    assert(*ctx.skip_count == one_less(consumed as int));
                }
                return Ok(RuleResult::Consumed);
            }
        }

        if current == 'μ' {
            return apply_micro(ctx);
        }

        if let Some(parts) = compatibility_unit_decomposition(current) {
            let continues_from_previous = roman_unit_chain_continues_before(ctx);
            let continues_after = roman_unit_chain_continues_after(ctx);
            let mut encoded = encode_compatibility_unit(parts.as_slice(), !continues_from_previous, !continues_after)?;
            omit_roman_terminator_before_boundary(&mut encoded, ctx.word_chars, index + 1);
            ctx.emit_slice(encoded.as_slice());
            set_unit_state(ctx);
            return Ok(RuleResult::Consumed);
        }

        // `matches` puts a single unit symbol here; anything else is refused.
        let unicode = match single_mapping(current) {
            Some(unicode) => unicode,
            None => return Err(String::from_str("not a rule 69 unit symbol")),
        };
        assert(!numeric_unit_case(old_ctx));
        assert(!ascii_unit_case(old_ctx));
        assert(!percent_case(old_ctx));
        let mut encoded = encode_unicode_cells(unicode);
        omit_roman_terminator_before_boundary(&mut encoded, ctx.word_chars, index + 1);
        let ghost cells = encoded@;
        ctx.emit_slice(encoded.as_slice());
        let ghost mid = ctx.result@;
        if should_insert_separator_after_symbol(current, ctx.next_char()) {
            ctx.emit(0);
        }
        proof {
            let space: Seq<u8> = if spec_separator_after(current, old_ctx.spec_next_char()) { seq![0u8] } else { Seq::empty() };
            assert(ctx.result@ =~= old_ctx.result@ + cells + space);
        }
        Ok(RuleResult::Consumed)
    }
}

} // verus!
