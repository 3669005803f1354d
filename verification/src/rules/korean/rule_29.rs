//! 제29항 — the Roman indicator and the continuation indicator that open a
//! Roman section in Korean text.
use vstd::prelude::*;

verus! {

/// Roman indicator ⠴ that opens a Roman section.
pub const ROMAN_INDICATOR: u8 = 52;

/// Continuation indicator ⠰ that reopens an interrupted Roman section.
pub const ENGLISH_CONTINUATION: u8 = 48;

} // verus!
