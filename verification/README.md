# braillify

Korean braille in Verus.

- `src/decoder.rs` decodes Unicode braille (U+2800–U+28FF) into Hangul. The
  decoder is a state machine over cells, stated as spec functions; `decode`
  is proved equal to it, and proof functions state what every output looks
  like.
- `src/rules/` holds the rules of the 2024 Korean Braille Standard that place
  Roman letters (rule 28), English-context punctuation, measurement units
  (rule 69) and arithmetic operators (rule 46) in Korean text. Each rule is a
  `BrailleRule` whose `apply` has an exact contract over the rule context: the
  cells appended to the output and the encoder state after the call.
- `src/rules/english_ueb.rs` writes the Roman words of Korean text in
  Unified English Braille: capital indicators, the contractions that rule 37
  keeps inside a word (longest first, never the whole word), wordsigns of a
  word standing alone, and the grade 1 indicator of shortform spellings.
- `src/char_struct.rs`, `src/symbol_shortcut.rs`, `src/number.rs` and the
  other small modules hold the character classes and cell tables that the
  rules read.
- `src/test_helpers.rs` builds a rule context for one word, for tests.
- `app/` is the desktop shell (Tauri), which is not verified.

The only outside crate that the library calls is `unicode-normalization`, for
the NFKC form of compatibility unit glyphs (`㎏` → `kg`); its result is named
by `nfkc_of` and everything done with it is verified.
