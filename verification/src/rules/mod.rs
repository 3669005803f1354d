//! Braille rules of the 2024 Korean Braille Standard, each a plug-in of the
//! rule engine.
use vstd::prelude::*;

pub mod context;
pub mod english_ueb;
pub mod korean;
pub mod traits;

verus! {

/// Where a rule comes from in the standard, and what it does.
pub struct RuleMeta {
    pub section: &'static str,
    pub subsection: Option<&'static str>,
    pub name: &'static str,
    pub standard_ref: &'static str,
    pub description: &'static str,
}

} // verus!
