//! Korean braille: a decoder from Unicode braille to Hangul and the rules of
//! the 2024 Korean Braille Standard that place Roman letters, units, symbols
//! and mathematical operators.
pub mod text;

pub mod char_struct;
pub mod decoder;
pub mod english_logic;
pub mod math_symbol_shortcut;
pub mod number;
pub mod rules;
pub mod symbol_shortcut;
pub mod unicode;
pub mod utils;

pub use decoder::decode;
pub mod test_helpers;
