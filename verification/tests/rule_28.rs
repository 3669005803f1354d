use braillify::char_struct::CharType;
use braillify::rules::context::{EncoderState, RuleContext};
use braillify::rules::korean::rule_28::{apply, is_nonempty_ascii_word, uppercase_indicators, Rule28};
use braillify::rules::traits::{BrailleRule, Phase, RuleResult};
use braillify::test_helpers::CtxOwned;
use braillify::unicode::decode_unicode;

#[test]
fn english_dominant_wrap_resumes_ueb_wordsigns_after_korean_span() {
    let mut owned = CtxOwned::for_text("in", true);
    owned.state.is_english = true;
    owned.state.english_dominant_wrap_active = true;
    let mut ctx = owned.ctx_at(0);

    assert!(matches!(
        Rule28.apply(&mut ctx).unwrap(),
        RuleResult::Consumed
    ));
    assert_eq!(owned.result, vec![20]);
}

/// Rule 37's example sentence `Can you help me?` permits the phrase-interior
/// `you` wordsign because both adjacent whitespace-delimited words are Roman.
#[test]
fn rule_37_phrase_interior_word_uses_standalone_wordsign() {
    let mut owned = CtxOwned::for_text("you", true)
        .with_prev_word("Can")
        .with_remaining_words(["help", "me?"]);
    let mut ctx = owned.ctx_at(0);

    assert!(matches!(
        Rule28.apply(&mut ctx).unwrap(),
        RuleResult::Consumed
    ));
    assert_eq!(owned.result, vec![52, decode_unicode('⠽')]);
}

#[test]
fn apply_skips_non_korean() {
    let mut owned = CtxOwned::for_text("A", false);
    let mut ctx = owned.ctx_at(0);
    let _ = Rule28.apply(&mut ctx).unwrap();
}

#[test]
fn rule28_multi_cell_word_middle_direct() {
    let word: Vec<char> = "along".chars().collect();
    let ct = CharType::English('o');
    let mut skip = 0usize;
    let mut state = EncoderState::new(false);
    state.is_english = true;
    let mut out = Vec::new();
    let mut ctx = RuleContext {
        word_chars: &word,
        index: 2,
        char_type: &ct,
        prev_word: "",
        remaining_words: &[],
        has_korean_char: false,
        is_all_uppercase: false,
        ascii_starts_at_beginning: true,
        skip_count: &mut skip,
        state: &mut state,
        result: &mut out,
    };
    let outcome = Rule28.apply(&mut ctx).unwrap();
    let _ = outcome;
}

#[test]
fn rule28_apply_skip_for_non_english_ctx() {
    let mut owned = CtxOwned::for_text("가", false);
    let mut ctx = owned.ctx_at(0);
    let outcome = Rule28.apply(&mut ctx).unwrap();
    assert!(matches!(outcome, RuleResult::Skip));
}

#[test]
fn classifies_adjacent_ascii_words() {
    assert!(!is_nonempty_ascii_word(""));
    assert!(is_nonempty_ascii_word("help"));
    assert!(!is_nonempty_ascii_word("도움"));
    assert!(!is_nonempty_ascii_word("me?"));
}

#[test]
fn encodes_english_letters() {
    assert_eq!(apply('a').unwrap(), decode_unicode('⠁'));
    assert_eq!(apply('z').unwrap(), decode_unicode('⠵'));
    assert_eq!(apply('A').unwrap(), decode_unicode('⠁'));
}

#[test]
fn invalid_letter_returns_error() {
    assert!(apply('1').is_err());
    assert!(apply('가').is_err());
}

#[test]
fn uppercase_indicator_paths() {
    assert_eq!(uppercase_indicators(true, false, 0), vec![32u8]);
    assert_eq!(uppercase_indicators(false, true, 0), vec![32, 32]);
    assert_eq!(uppercase_indicators(false, true, 3), vec![32, 32, 32]);
    assert_eq!(uppercase_indicators(false, false, 0), Vec::<u8>::new());
}

#[test]
fn rule28_metadata() {
    assert_eq!(Rule28.meta().section, "28");
    assert_eq!(Rule28.phase(), Phase::CoreEncoding);
}

#[test]
fn roman_indicator_opens_a_section_in_korean_text() {
    // "가 ATM": the Roman word after Korean opens with ⠴ and takes the
    // capitals-word indicator.
    let mut owned = CtxOwned::for_text("ATM", true).with_prev_word("가");
    owned.is_all_uppercase = false;
    let mut ctx = owned.ctx_at(0);
    assert_eq!(Rule28.apply(&mut ctx).unwrap(), RuleResult::Consumed);
    assert_eq!(owned.result, vec![52, 32, 32, 1, 30, 13]);
    assert_eq!(owned.skip_count, 2);
    assert!(owned.state.is_english);
}

#[test]
fn continuation_indicator_reopens_an_interrupted_section() {
    let mut owned = CtxOwned::for_text("b", true);
    owned.state.needs_english_continuation = true;
    let mut ctx = owned.ctx_at(0);
    assert_eq!(Rule28.apply(&mut ctx).unwrap(), RuleResult::Consumed);
    assert_eq!(owned.result, vec![48, 3]);
    assert!(!owned.state.needs_english_continuation);
}

#[test]
fn attached_allcaps_shortform_takes_grade1_indicator() {
    // The `CD` of "가(CD)": a word-initial all-capital shortform.
    let mut owned = CtxOwned::for_text("(CD)", true);
    owned.state.is_english = true;
    let mut ctx = owned.ctx_at(1);
    assert_eq!(Rule28.apply(&mut ctx).unwrap(), RuleResult::Consumed);
    assert_eq!(owned.result, vec![48, 32, 32, 9, 25]);
}

#[test]
fn lowercase_continuation_after_apostrophe_is_letter_by_letter() {
    let mut owned = CtxOwned::for_text("don't", true);
    owned.state.is_english = true;
    let mut ctx = owned.ctx_at(4);
    assert_eq!(Rule28.apply(&mut ctx).unwrap(), RuleResult::Consumed);
    assert_eq!(owned.result, vec![30]);
    assert_eq!(owned.skip_count, 0);
}

fn run_rule28(text: &str) -> (RuleResult, Vec<u8>, usize) {
    let mut owned = CtxOwned::for_text(text, true);
    let mut ctx = owned.ctx_at(0);
    let outcome = Rule28.apply(&mut ctx).unwrap();
    (outcome, owned.result, owned.skip_count)
}

/// Rule 37: Korean-context Roman words suppress whole-word contractions but
/// keep their multi-letter groupsigns. The Roman terminator after the word
/// is written by the encoder when the section closes, not by this rule.
#[test]
fn korean_roman_words_use_groupsigns() {
    // ⠐⠑ ever + y
    assert_eq!(run_rule28("every"), (RuleResult::Consumed, vec![52, 16, 17, 61], 4));
    // ⠢ en, ⠳ ou, ⠣ gh
    assert_eq!(run_rule28("enough"), (RuleResult::Consumed, vec![52, 34, 51, 35], 5));
    // r a ⠮ the r
    assert_eq!(run_rule28("rather"), (RuleResult::Consumed, vec![52, 23, 1, 46, 23], 5));
    // A lower groupsign does not take the whole entry run: i n.
    assert_eq!(run_rule28("in"), (RuleResult::Consumed, vec![52, 10, 29], 1));
}

#[test]
fn groupsigns_respect_capitals() {
    // An all-capital word keeps the ⠹ th groupsign after ⠠⠠.
    let mut owned = CtxOwned::for_text("THAT", true);
    owned.is_all_uppercase = false;
    let mut ctx = owned.ctx_at(0);
    Rule28.apply(&mut ctx).unwrap();
    assert_eq!(owned.result, vec![52, 32, 32, 57, 1, 30]);
    // A groupsign never joins two capitals of a mixed-case word: G H z.
    let (_, cells, _) = run_rule28("GHz");
    assert_eq!(cells, vec![52, 32, 27, 32, 19, 53]);
    // A capital may begin a groupsign: ⠠ H, ⠜ ar, a.
    let (_, cells, _) = run_rule28("Hara");
    assert_eq!(cells, vec![52, 32, 19, 28, 1]);
}

#[test]
fn letter_path_writes_a_final_groupsign() {
    let word: Vec<char> = "along".chars().collect();
    let ct = CharType::English('o');
    let mut skip = 0usize;
    let mut state = EncoderState::new(false);
    state.is_english = true;
    let mut out = Vec::new();
    let mut ctx = RuleContext {
        word_chars: &word,
        index: 2,
        char_type: &ct,
        prev_word: "",
        remaining_words: &[],
        has_korean_char: false,
        is_all_uppercase: false,
        ascii_starts_at_beginning: true,
        skip_count: &mut skip,
        state: &mut state,
        result: &mut out,
    };
    assert_eq!(Rule28.apply(&mut ctx).unwrap(), RuleResult::Consumed);
    // ⠰⠛ ong, covering three letters.
    assert_eq!(out, vec![48, 27]);
    assert_eq!(skip, 2);
}

#[test]
fn refused_letter_keeps_the_entry_indicator() {
    let word: Vec<char> = "1".chars().collect();
    let ct = CharType::English('a');
    let mut skip = 0usize;
    let mut state = EncoderState::new(true);
    let mut out = vec![7];
    let mut ctx = RuleContext {
        word_chars: &word,
        index: 0,
        char_type: &ct,
        prev_word: "",
        remaining_words: &[],
        has_korean_char: false,
        is_all_uppercase: false,
        ascii_starts_at_beginning: false,
        skip_count: &mut skip,
        state: &mut state,
        result: &mut out,
    };
    assert_eq!(Rule28.apply(&mut ctx), Err("not a Roman letter".to_string()));
    assert_eq!(out, vec![7, 52]);
    assert_eq!(skip, 0);
    assert!(!state.is_english);
}

#[test]
fn word_context_flags_follow_the_text() {
    let owned = CtxOwned::for_text("AB가", true);
    assert!(owned.has_korean_char);
    assert!(owned.is_all_uppercase);
    assert!(owned.ascii_starts_at_beginning);
    assert_eq!(owned.char_types, vec![CharType::English('A'), CharType::English('B'), CharType::Korean('가')]);
    let owned = CtxOwned::for_text("1ab", true);
    assert!(!owned.has_korean_char);
    assert!(!owned.is_all_uppercase);
    assert!(!owned.ascii_starts_at_beginning);
    assert_eq!(owned.char_types[0], CharType::Number('1'));
}

#[test]
fn letter_path_counts_a_non_ascii_capital_after_the_letter() {
    // `B` is not at the start of its run, so it takes the letter path; the
    // next character `É` is a capital too, so both get ⠠.
    let word: Vec<char> = "aBÉ".chars().collect();
    let ct = CharType::English('B');
    let mut skip = 0usize;
    let mut state = EncoderState::new(false);
    state.is_english = true;
    let mut out = Vec::new();
    let mut ctx = RuleContext {
        word_chars: &word,
        index: 1,
        char_type: &ct,
        prev_word: "",
        remaining_words: &[],
        has_korean_char: false,
        is_all_uppercase: false,
        ascii_starts_at_beginning: true,
        skip_count: &mut skip,
        state: &mut state,
        result: &mut out,
    };
    assert_eq!(Rule28.apply(&mut ctx).unwrap(), RuleResult::Consumed);
    assert_eq!(out, vec![32, 32, 3]);
    assert!(state.is_big_english);
}
