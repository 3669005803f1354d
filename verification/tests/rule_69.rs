use braillify::rules::korean::rule_69::{
    compatibility_ascii_unit_owners, compatibility_ascii_unit_spellings, compatibility_unit_decomposition, encode_ascii_unit,
    encode_compatibility_unit, encode_numeric_ascii_unit, encode_percent_abbreviation,
    encode_rule_69_unit_letters, encode_unicode_cells, is_rule_69_symbol,
    omit_roman_terminator_before_boundary, parse_numeric_ascii_unit_prefix,
    retain_unambiguous_ascii_unit_spellings, trim_recent_english_indicator,
    word_looks_like_unit_chain, Rule69,
};
use braillify::rules::traits::{BrailleRule, Phase, RuleResult};
use braillify::test_helpers::CtxOwned;

const ACCEPTED_GLYPHS: &str = "㍱㍲㍳㍴㍵㍶㍷㍸㍹㍺㎀㎁㎂㎃㎄㎅㎆㎇㎈㎉㎊㎋㎌㎍㎎㎏㎐㎑㎒㎓㎔㎕㎖㎗㎘㎙㎚㎛㎜㎝㎞㎟㎠㎢㎣㎤㎥㎦㎧㎨㎩㎪㎫㎬㎭㎮㎯㎰㎱㎲㎳㎴㎵㎶㎷㎸㎹㎺㎻㎼㎽㎾㎿㏃㏄㏅㏆㏈㏉㏋㏌㏎㏏㏐㏓㏔㏕㏖㏗㏙㏛㏜㏝㏞㏟㏿";

fn cells(s: &str) -> Vec<u8> {
    encode_unicode_cells(s)
}

#[test]
fn accepted_compatibility_unit_set_is_stable() {
    let actual = (0x3300..=0x33ff)
        .filter_map(char::from_u32)
        .filter(|ch| compatibility_unit_decomposition(*ch).is_some())
        .collect::<String>();

    assert_eq!(actual, ACCEPTED_GLYPHS);
}

#[test]
fn every_accepted_compatibility_unit_encodes_without_panicking() {
    for glyph in ACCEPTED_GLYPHS.chars() {
        let parts = compatibility_unit_decomposition(glyph).unwrap();
        let mut index = 0usize;
        while index < parts.len() {
            if !parts[index].is_ascii_alphabetic() {
                index += 1;
                continue;
            }
            let end = index
                + parts[index..]
                    .iter()
                    .take_while(|part| part.is_ascii_alphabetic())
                    .count();
            encode_rule_69_unit_letters(&parts[index..end]).unwrap();
            index = end;
        }
        encode_compatibility_unit(&parts, true, true).unwrap();
    }
}

#[test]
fn conflicting_nfkc_owner_cells_are_excluded_instead_of_first_wins() {
    let owners = std::collections::BTreeMap::from([
        (
            "safe".to_string(),
            vec![('A', vec![1, 2]), ('B', vec![1, 2])],
        ),
        ("conflict".to_string(), vec![('C', vec![3]), ('D', vec![4])]),
    ]);

    let resolved = retain_unambiguous_ascii_unit_spellings(owners.into_iter().collect());

    assert!(resolved.iter().any(|(spelling, _)| spelling == "safe"));
    assert!(resolved.iter().all(|(spelling, _)| spelling != "conflict"));
}

#[test]
fn boundary_helper_does_not_remove_non_terminator_cells() {
    let word = "kg)".chars().collect::<Vec<_>>();
    let mut encoded = cells("⠴⠅⠛");
    omit_roman_terminator_before_boundary(&mut encoded, &word, 2);
    assert_eq!(encoded, cells("⠴⠅⠛"));
}

#[test]
fn parses_compact_number_unit_word() {
    let chars: Vec<char> = "180cm".chars().collect();
    let parsed = parse_numeric_ascii_unit_prefix(&chars).expect("should parse 180cm");
    assert_eq!(parsed.0, "180");
    assert_eq!(parsed.2, chars.len());
}

#[test]
fn parses_decimal_number_unit_word() {
    let chars: Vec<char> = "1,234.5kg".chars().collect();
    let parsed = parse_numeric_ascii_unit_prefix(&chars).expect("should parse decimal kg");

    assert_eq!(parsed.0, "1,234.5");
    assert_eq!(parsed.2, chars.len());
}

#[test]
fn parses_leading_decimal_numeric_unit_word() {
    let chars: Vec<char> = ".5kg".chars().collect();
    let parsed = parse_numeric_ascii_unit_prefix(&chars).expect("should parse .5kg");

    assert_eq!(parsed.0, ".5");
    assert_eq!(parsed.2, chars.len());
}

#[test]
fn percent_p_does_not_match_inside_ascii_word() {
    let chars: Vec<char> = "%point".chars().collect();
    assert!(encode_percent_abbreviation(&chars, 0).is_none());
}

#[test]
fn ascii_unit_scan_continues_past_non_matching_candidates() {
    let chars: Vec<char> = "zzz".chars().collect();

    assert!(encode_ascii_unit(&chars, 0).is_none());
}

#[test]
fn rule69_metadata_is_stable() {
    assert_eq!(Rule69.meta().name, "measurement_symbols");
    assert_eq!(Rule69.phase(), Phase::CoreEncoding);
    assert_eq!(Rule69.priority(), 90);
}

#[test]
fn detects_unit_chain_words() {
    let check = |input: &str, expected: bool| {
        let chars: Vec<char> = input.chars().collect();
        assert_eq!(word_looks_like_unit_chain(&chars), expected, "{input}");
    };
    check("cal/min", true);
    check("kg/㎠", true);
    check("//", false);
    check("㎠", false);
}

#[test]
fn decomposes_compatibility_unit_symbols() {
    for (glyph, expected) in [('㎏', "kg"), ('㎓', "GHz"), ('㎥', "m3"), ('㎧', "m∕s"), ('㎽', "mW"), ('㎾', "kW"), ('㏜', "Sv")] {
        assert_eq!(compatibility_unit_decomposition(glyph), Some(expected.chars().collect()));
    }
}

#[test]
fn accepts_only_unit_semantics() {
    assert_eq!(compatibility_unit_decomposition('㍺'), Some("IU".chars().collect()));
    assert_eq!(compatibility_unit_decomposition('㏑'), None);
    assert_eq!(compatibility_unit_decomposition('㏒'), None);
    assert_eq!(compatibility_unit_decomposition('㏚'), None);
}

#[test]
fn rule_68_glyphs_are_not_rule_69_units() {
    assert_eq!(compatibility_unit_decomposition('㎡'), None);
    assert_eq!(compatibility_unit_decomposition('㏊'), None);
}

#[test]
fn compatibility_units_match_existing_ascii_unit_spelling() {
    for (glyph, ascii) in [('㏌', "in"), ('㎝', "cm"), ('㎜', "mm"), ('㎇', "GB")] {
        let ascii_chars = ascii.chars().collect::<Vec<_>>();
        let expected = encode_ascii_unit(&ascii_chars, 0).expect("existing rule 69 ASCII unit").0;
        let decomposition = compatibility_unit_decomposition(glyph).unwrap();
        let actual = encode_compatibility_unit(&decomposition, true, true).unwrap();
        assert_eq!(actual, expected, "{glyph}");
    }
}

#[test]
fn compatibility_units_with_superscripts_micro_and_slash() {
    let unit = |glyph: char, indicator: bool, terminator: bool| {
        encode_compatibility_unit(&compatibility_unit_decomposition(glyph).unwrap(), indicator, terminator).unwrap()
    };
    assert_eq!(unit('㎏', true, true), cells("⠴⠅⠛⠲"));
    assert_eq!(unit('㎓', true, true), cells("⠴⠠⠛⠠⠓⠵⠲"));
    assert_eq!(unit('㎥', true, true), cells("⠴⠍⠘⠼⠉"));
    assert_eq!(unit('㎠', false, true), cells("⠉⠍⠘⠼⠃"));
    assert_eq!(unit('㎽', true, true), cells("⠴⠍⠠⠺⠲"));
    assert_eq!(unit('㏜', true, true), cells("⠴⠠⠎⠧⠲"));
    assert_eq!(unit('㎍', true, true), cells("⠴⠨⠍⠛⠲"));
    assert_eq!(unit('㎧', true, true), cells("⠴⠍⠸⠌⠎⠲"));
    assert_eq!(unit('㎏', true, false), cells("⠴⠅⠛"));
}

#[test]
fn compatibility_unit_rejects_unknown_components() {
    assert!(encode_compatibility_unit(&['k', '5'], true, true).is_err());
}

#[test]
fn encodes_percent_abbreviation() {
    let percentile: Vec<char> = "%ile".chars().collect();
    assert_eq!(encode_percent_abbreviation(&percentile, 0), Some((cells("⠴⠏⠞"), 4)));
    let point: Vec<char> = "%p는".chars().collect();
    assert_eq!(encode_percent_abbreviation(&point, 0), Some((cells("⠴⠏⠏"), 2)));
}

#[test]
fn ascii_unit_takes_the_longest_spelling() {
    let min: Vec<char> = "min".chars().collect();
    assert_eq!(encode_ascii_unit(&min, 0), Some((cells("⠍⠔⠲"), 3)));
    let mm: Vec<char> = "mm)".chars().collect();
    assert_eq!(encode_ascii_unit(&mm, 0), Some((cells("⠴⠍⠍⠲"), 2)));
    let m: Vec<char> = "m는".chars().collect();
    assert_eq!(encode_ascii_unit(&m, 0), Some((cells("⠴⠍⠲"), 1)));
}

#[test]
fn parses_only_complete_compatibility_derived_units() {
    let consumed = |input: &str| {
        let chars = input.chars().collect::<Vec<_>>();
        parse_numeric_ascii_unit_prefix(&chars).map_or(0, |(_, _, consumed)| consumed)
    };
    assert_eq!(consumed("30mW"), 4);
    assert_eq!(consumed("15.2ha"), 6);
    assert_eq!(consumed("30kWh"), 0);
}

#[test]
fn numeric_unit_prefers_longer_derived_spelling() {
    // `mW` is derived from ㎽ and is longer than the explicit `m`.
    let chars: Vec<char> = "mW".chars().collect();
    assert_eq!(encode_numeric_ascii_unit(&chars, 0), Some((cells("⠴⠍⠠⠺⠲"), 2)));
}

#[test]
fn unit_spelling_table_is_sorted_and_unambiguous() {
    let table = compatibility_ascii_unit_spellings();
    for pair in table.windows(2) {
        let (a, b) = (&pair[0].0, &pair[1].0);
        assert!(a.len() > b.len() || (a.len() == b.len() && a < b), "{a} {b}");
    }
    assert!(table.iter().any(|(s, c)| s == "kg" && *c == cells("⠴⠅⠛⠲")));
    assert!(table.iter().any(|(s, _)| s == "ha"));
}

#[test]
fn trims_only_a_recent_roman_indicator() {
    let mut with_indicator = vec![1, 52];
    trim_recent_english_indicator(&mut with_indicator);
    assert_eq!(with_indicator, vec![1]);
    let mut with_continuation = vec![48];
    trim_recent_english_indicator(&mut with_continuation);
    assert!(with_continuation.is_empty());
    let mut other = vec![52, 1];
    trim_recent_english_indicator(&mut other);
    assert_eq!(other, vec![52, 1]);
}

#[test]
fn terminator_dropped_before_closing_mark_and_slash_chain() {
    let word: Vec<char> = "kg)".chars().collect();
    let mut encoded = cells("⠴⠅⠛⠲");
    omit_roman_terminator_before_boundary(&mut encoded, &word, 2);
    assert_eq!(encoded, cells("⠴⠅⠛"));

    let chain: Vec<char> = "cal/min".chars().collect();
    let mut unit = cells("⠴⠉⠁⠇⠲");
    omit_roman_terminator_before_boundary(&mut unit, &chain, 3);
    assert_eq!(unit, cells("⠴⠉⠁⠇"));

    let korean: Vec<char> = "m는".chars().collect();
    let mut kept = cells("⠴⠍⠲");
    omit_roman_terminator_before_boundary(&mut kept, &korean, 1);
    assert_eq!(kept, cells("⠴⠍⠲"));
}

#[test]
fn rule_69_symbols() {
    for c in ['Ω', '%', '‰', '°', '℃', '℉', '′', '″', 'Å', 'μ', '㎏'] {
        assert!(is_rule_69_symbol(c), "{c}");
    }
    assert!(!is_rule_69_symbol('a'));
    assert!(!is_rule_69_symbol('㎡'));
}

#[test]
fn apply_writes_number_and_unit() {
    let mut owned = CtxOwned::for_text("180cm", true);
    let mut ctx = owned.ctx_at(0);
    assert!(Rule69.matches(&ctx));
    assert_eq!(Rule69.apply(&mut ctx).unwrap(), RuleResult::Consumed);
    assert_eq!(owned.result, cells("⠼⠁⠓⠚⠴⠉⠍⠲"));
    assert_eq!(owned.skip_count, 4);
}

#[test]
fn apply_drops_terminator_before_closing_parenthesis() {
    let mut owned = CtxOwned::for_text("20kg)", true);
    let mut ctx = owned.ctx_at(0);
    assert_eq!(Rule69.apply(&mut ctx).unwrap(), RuleResult::Consumed);
    assert_eq!(owned.result, cells("⠼⠃⠚⠴⠅⠛"));
}

#[test]
fn apply_percent_with_korean_separator() {
    let mut owned = CtxOwned::for_text("5%가", true);
    let mut ctx = owned.ctx_at(1);
    assert!(Rule69.matches(&ctx));
    assert_eq!(Rule69.apply(&mut ctx).unwrap(), RuleResult::Consumed);
    assert_eq!(owned.result, vec![52, 15, 0]);
}

#[test]
fn apply_compatibility_glyph_in_a_slash_chain() {
    // `㎠` in "cal/㎠/min" continues the chain on both sides.
    let mut owned = CtxOwned::for_text("cal/㎠/min", true);
    let mut ctx = owned.ctx_at(4);
    assert_eq!(Rule69.apply(&mut ctx).unwrap(), RuleResult::Consumed);
    assert_eq!(owned.result, cells("⠉⠍⠘⠼⠃"));
    assert!(!owned.state.is_english);
}

#[test]
fn apply_micro_sign_with_unit() {
    let mut owned = CtxOwned::for_text("3μm", true);
    owned.result = vec![60, 9, 52];
    let mut ctx = owned.ctx_at(1);
    assert_eq!(Rule69.apply(&mut ctx).unwrap(), RuleResult::Consumed);
    assert_eq!(owned.result, vec![60, 9, 52, 40, 13, 13, 50]);
    assert_eq!(owned.skip_count, 1);
}

#[test]
fn apply_micro_sign_alone() {
    let mut owned = CtxOwned::for_text("3μ가", true);
    let mut ctx = owned.ctx_at(1);
    assert_eq!(Rule69.apply(&mut ctx).unwrap(), RuleResult::Consumed);
    assert_eq!(owned.result, vec![52, 40, 13, 13]);
}

#[test]
fn apply_refuses_a_character_that_is_not_a_unit() {
    let mut owned = CtxOwned::for_text("#", true);
    let mut ctx = owned.ctx_at(0);
    assert!(!Rule69.matches(&ctx));
    assert!(Rule69.apply(&mut ctx).is_err());
}

#[test]
fn every_derived_spelling_is_recognized_after_a_number() {
    for (spelling, owner_cells) in compatibility_ascii_unit_spellings() {
        let chars: Vec<char> = spelling.chars().collect();
        assert_eq!(
            encode_numeric_ascii_unit(&chars, 0),
            Some((owner_cells.clone(), chars.len())),
            "{spelling}"
        );
    }
}

#[test]
fn every_rule_68_or_69_ascii_derivation_matches_every_owner_glyph() {
    for (spelling, owners) in compatibility_ascii_unit_owners() {
        let first = &owners[0].1;
        for (glyph, owner_encoding) in &owners {
            assert_eq!(
                owner_encoding, first,
                "conflicting owner cells for NFKC spelling {spelling:?}: U+{:04X}",
                *glyph as u32
            );

            let chars = spelling.chars().collect::<Vec<_>>();
            let (derived, consumed) = encode_numeric_ascii_unit(&chars, 0).unwrap_or_else(|| {
                panic!(
                    "unambiguous ASCII compatibility-unit spelling {spelling:?} from U+{:04X} must be recognized",
                    *glyph as u32
                )
            });
            assert_eq!(consumed, spelling.len(), "partial match for {spelling}");
            assert_eq!(
                &derived, owner_encoding,
                "derived cells differ from owner U+{:04X} for {spelling}",
                *glyph as u32
            );
        }
    }
}

#[test]
fn unit_letters_use_groupsigns_but_not_for_the_whole_run() {
    let letters = |s: &str| s.chars().collect::<Vec<_>>();
    assert_eq!(encode_rule_69_unit_letters(&letters("min")), Ok(vec![13, 20]));
    assert_eq!(encode_rule_69_unit_letters(&letters("in")), Ok(vec![10, 29]));
    assert_eq!(encode_rule_69_unit_letters(&letters("bar")), Ok(vec![3, 28]));
    assert_eq!(
        encode_rule_69_unit_letters(&letters("a1")),
        Err("cannot encode rule 69 Roman unit letters: a1".to_string())
    );
    assert_eq!(
        encode_rule_69_unit_letters(&[]),
        Err("cannot encode rule 69 Roman unit letters: ".to_string())
    );
}

#[test]
fn compatibility_unit_errors_name_the_component() {
    assert_eq!(
        encode_compatibility_unit(&['!'], true, true),
        Err("unsupported compatibility unit component: U+0021".to_string())
    );
    assert_eq!(
        encode_compatibility_unit(&['4'], false, false),
        Err("unsupported compatibility unit component: U+0034".to_string())
    );
    assert_eq!(
        encode_compatibility_unit(&['k', 'g', '가'], true, true),
        Err("unsupported compatibility unit component: U+AC00".to_string())
    );
    assert_eq!(
        encode_compatibility_unit(&['\u{1F600}'], true, true),
        Err("unsupported compatibility unit component: U+1F600".to_string())
    );
}

#[test]
fn unit_flags_only_add_the_indicator_and_terminator() {
    let kg = ['k', 'g'];
    let bare = encode_compatibility_unit(&kg, false, false).unwrap();
    assert_eq!(bare, vec![5, 27]);
    assert_eq!(encode_compatibility_unit(&kg, true, false).unwrap(), vec![52, 5, 27]);
    assert_eq!(encode_compatibility_unit(&kg, false, true).unwrap(), vec![5, 27, 50]);
    let m2 = ['m', '2'];
    assert_eq!(
        encode_compatibility_unit(&m2, false, true),
        encode_compatibility_unit(&m2, false, false)
    );
}

/// The micro sign alone, or followed by no unit letters, is still written
/// by rule 69.
#[test]
fn rule69_mu_alone_without_unit() {
    let mut owned = CtxOwned::for_text("3μ가", true);
    let mut ctx = owned.ctx_at(1);
    assert!(Rule69.apply(&mut ctx).is_ok());
    let mut owned = CtxOwned::for_text("3μ", true);
    let mut ctx = owned.ctx_at(1);
    assert!(Rule69.apply(&mut ctx).is_ok());
}

#[test]
fn slash_after_korean_starts_a_new_roman_unit_chain() {
    let mut owned = CtxOwned::for_text("시/㎏", true);
    let mut ctx = owned.ctx_at(2);
    assert_eq!(Rule69.apply(&mut ctx).unwrap(), RuleResult::Consumed);
    assert!(
        owned.result.ends_with(&cells("⠴⠅⠛⠲")),
        "the Roman indicator must not be suppressed after a Korean component: {:?}",
        owned.result
    );
}

#[test]
fn refused_symbol_leaves_the_output_alone() {
    let mut owned = CtxOwned::for_text("#", true);
    owned.result = vec![9];
    let mut ctx = owned.ctx_at(0);
    assert_eq!(Rule69.apply(&mut ctx), Err("not a rule 69 unit symbol".to_string()));
    assert_eq!(owned.result, vec![9]);
    assert_eq!(owned.skip_count, 0);
}
