use braillify::decode;

#[test]
fn decodes_a_representative_korean_word() {
    assert_eq!(decode("⠣⠒⠉⠻").unwrap(), "안녕");
}

#[test]
fn decode_never_fails_and_trims_blank_cells() {
    assert_eq!(decode("").unwrap(), "");
    assert_eq!(decode("⠀⠀").unwrap(), "");
    assert_eq!(decode(" ⠣⠒⠉⠻ \n").unwrap(), "안녕");
}

#[test]
fn decode_skips_characters_that_are_not_braille() {
    assert_eq!(decode("⠣x⠒⠉y⠻").unwrap(), decode("⠣⠒⠉⠻").unwrap());
    assert_eq!(decode("abc").unwrap(), "");
}

#[test]
fn decode_treats_space_newline_and_blank_pattern_alike() {
    let spaced = decode("⠣⠒ ⠉⠻").unwrap();
    assert_eq!(decode("⠣⠒\n⠉⠻").unwrap(), spaced);
    assert_eq!(decode("⠣⠒⠀⠉⠻").unwrap(), spaced);
    assert_eq!(spaced, "안 녕");
}

#[test]
fn decode_two_cell_syllable_abbreviations() {
    // 성 ⠠⠻, 정 ⠨⠻, 청 ⠰⠻, 것 ⠸⠎
    assert_eq!(decode("⠠⠻⠨⠻⠰⠻").unwrap(), "성정청");
    assert_eq!(decode("⠸⠎").unwrap(), "것");
}

#[test]
fn decode_consonant_with_vowel_a_abbreviations() {
    // ⠫ 가, ⠇ 사
    assert_eq!(decode("⠫").unwrap(), "가");
    assert_eq!(decode("⠇").unwrap(), "사");
}

#[test]
fn decode_initial_consonant_alone_before_blank() {
    // ㄱ ⠈ then a blank cell: the jamo stands alone.
    assert_eq!(decode("⠈⠀⠣").unwrap(), "ㄱ 아");
}

#[test]
fn decode_final_consonant_clusters_and_tense_initials() {
    // 닭: ⠊⠣⠂⠁ (ㄷ ㅏ ㄺ)
    assert_eq!(decode("⠊⠣⠂⠁").unwrap(), "닭");
    // 까: ⠠⠫ (tense ㄱ with the ㅏ abbreviation)
    assert_eq!(decode("⠠⠫").unwrap(), "까");
    // 기쁘다: ⠈⠕⠠⠘⠪⠊
    assert_eq!(decode("⠈⠕⠠⠘⠪⠊").unwrap(), "기쁘다");
}

#[test]
fn decode_open_syllable_at_the_end() {
    // An initial consonant alone at the end closes with no vowel index 0 (ㅏ).
    assert_eq!(decode("⠊").unwrap(), "다");
}

#[test]
fn decoded_text_is_never_longer_than_its_cells() {
    for input in ["⠁⠁⠁", "⠫⠫⠫", "⠨⠻⠨⠻", "⠠⠠⠈", "⠿⠿⠿⠿", "⠛⠀⠛⠀"] {
        let text = decode(input).unwrap();
        assert!(text.chars().count() <= input.chars().count(), "{input} -> {text}");
        assert!(!text.contains('?'));
        assert_eq!(text.trim(), text);
    }
}
