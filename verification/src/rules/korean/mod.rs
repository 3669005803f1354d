//! Rules of the Korean part of the standard.
pub mod rule_math;
pub mod rule_28;
pub mod rule_29;
pub mod rule_english_symbol;
pub mod rule_68;
pub mod rule_69;
