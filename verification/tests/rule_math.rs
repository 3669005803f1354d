use braillify::char_struct::CharType;
use braillify::rules::context::{EncoderState, RuleContext};
use braillify::rules::korean::rule_math::{meta, RuleMath};
use braillify::rules::traits::{BrailleRule, Phase, RuleResult};
use braillify::test_helpers::CtxOwned;

#[test]
fn rule_math_apply_exercise() {
    let mut owned = CtxOwned::for_text("A", false);
    let mut ctx = owned.ctx_at(0);
    // Just exercise apply() for coverage; either Skip or Continue/Consumed is OK
    let _ = RuleMath.apply(&mut ctx);
}

#[test]
fn rule_math_matches_does_not_panic() {
    let mut owned = CtxOwned::for_text("A", false);
    let ctx = owned.ctx_at(0);
    let _ = RuleMath.matches(&ctx);
}

#[test]
fn apply_pads_math_symbol_between_korean_quantity_words() {
    let mut owned = CtxOwned::for_text("5개=2개3", false);
    let mut ctx = owned.ctx_at(2);

    let outcome = RuleMath.apply(&mut ctx).expect("math rule should apply");

    assert!(matches!(outcome, RuleResult::Consumed));
    assert!(owned.result.starts_with(&[0]));
    assert!(owned.result.ends_with(&[0]));
}

fn apply_at(text: &str, index: usize) -> (RuleResult, Vec<u8>) {
    let mut owned = CtxOwned::for_text(text, false);
    let mut ctx = owned.ctx_at(index);
    let outcome = RuleMath.apply(&mut ctx).expect("math rule should apply");
    (outcome, owned.result)
}

#[test]
fn parenthesized_plus_does_not_gain_inner_spaces() {
    assert_eq!(apply_at("가(+)나", 2), (RuleResult::Consumed, vec![34]));
}

#[test]
fn parenthesized_times_does_not_gain_inner_spaces() {
    assert_eq!(apply_at("가(×)나", 2), (RuleResult::Consumed, vec![33]));
}

#[test]
fn parenthesized_division_does_not_gain_inner_spaces() {
    assert_eq!(apply_at("가(÷)나", 2), (RuleResult::Consumed, vec![12, 12]));
}

#[test]
fn parenthesized_equals_does_not_gain_inner_spaces() {
    assert_eq!(apply_at("가(=)나", 2), (RuleResult::Consumed, vec![18, 18]));
}

#[test]
fn operator_between_quantities_is_spaced_on_both_sides() {
    assert_eq!(apply_at("5개−3개", 2), (RuleResult::Consumed, vec![0, 20, 0]));
}

#[test]
fn operator_before_particle_is_not_spaced() {
    // 반지름×3.14이다: the Korean after the operator is the particle 이다.
    assert_eq!(apply_at("반지름×3.14이다", 3), (RuleResult::Consumed, vec![33]));
    assert_eq!(apply_at("가+나와", 1), (RuleResult::Consumed, vec![0, 34, 0]));
    assert_eq!(apply_at("가+와", 1), (RuleResult::Consumed, vec![34]));
}

#[test]
fn operator_without_korean_on_both_sides_is_not_spaced() {
    assert_eq!(apply_at("3+4", 1), (RuleResult::Consumed, vec![34]));
    assert_eq!(apply_at("3+가", 1), (RuleResult::Consumed, vec![34]));
    assert_eq!(apply_at("가+4", 1), (RuleResult::Consumed, vec![34]));
}

#[test]
fn non_operator_is_skipped() {
    assert_eq!(apply_at("가", 0), (RuleResult::Skip, vec![]));
}

#[test]
fn unknown_operator_is_an_error() {
    let word: Vec<char> = "a".chars().collect();
    let ct = CharType::MathSymbol('a');
    let mut skip = 0usize;
    let mut state = EncoderState::new(false);
    let mut out = Vec::new();
    let mut ctx = RuleContext {
        word_chars: &word,
        index: 0,
        char_type: &ct,
        prev_word: "",
        remaining_words: &[],
        has_korean_char: false,
        is_all_uppercase: false,
        ascii_starts_at_beginning: true,
        skip_count: &mut skip,
        state: &mut state,
        result: &mut out,
    };
    assert!(RuleMath.apply(&mut ctx).is_err());
}

#[test]
fn only_operators_match() {
    let mut owned = CtxOwned::for_text("가=", false);
    assert!(!RuleMath.matches(&owned.ctx_at(0)));
    assert!(RuleMath.matches(&owned.ctx_at(1)));
}

#[test]
fn math_metadata() {
    let m = meta();
    assert_eq!(m.section, "math");
    assert_eq!(m.name, "math_symbol_encoding");
    assert_eq!(RuleMath.phase(), Phase::CoreEncoding);
    assert_eq!(RuleMath.priority(), 100);
}

#[test]
fn ascii_hyphen_minus_classifies_as_a_symbol() {
    assert!(matches!(
        CharType::new('-').expect("hyphen-minus must classify"),
        CharType::Symbol('-')
    ));
}

#[test]
fn unknown_operator_error_keeps_the_space_written_before_it() {
    // The operator stands between Korean words, so the leading space is
    // written before the unknown operator is refused.
    let word: Vec<char> = "가a나".chars().collect();
    let ct = CharType::MathSymbol('a');
    let mut skip = 0usize;
    let mut state = EncoderState::new(false);
    let mut out = Vec::new();
    let mut ctx = RuleContext {
        word_chars: &word,
        index: 1,
        char_type: &ct,
        prev_word: "",
        remaining_words: &[],
        has_korean_char: true,
        is_all_uppercase: false,
        ascii_starts_at_beginning: false,
        skip_count: &mut skip,
        state: &mut state,
        result: &mut out,
    };
    assert_eq!(RuleMath.apply(&mut ctx), Err("unsupported math symbol".to_string()));
    assert_eq!(out, vec![0]);
}
