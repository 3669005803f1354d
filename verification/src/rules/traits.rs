//! The interface between the rule engine and a rule.
use vstd::prelude::*;

use crate::rules::context::RuleContext;
use crate::rules::RuleMeta;

verus! {

/// The phase of encoding in which a rule runs.
#[derive(Clone, Copy, Debug, PartialEq, Eq, Structural)]
pub enum Phase {
    Preprocessing,
    WordShortcut,
    ModeManagement,
    CoreEncoding,
    InterCharacter,
}

/// What a rule did with the current character: wrote its cells and used
/// it up, left it to later rules, or did not apply to it at all.
#[derive(Clone, Copy, Debug, PartialEq, Eq, Structural)]
pub enum RuleResult {
    Consumed,
    Continue,
    Skip,
}

/// A rule of the engine. The engine calls `apply` at a character for which
/// `matches` holds, in order of phase and priority.
pub trait BrailleRule {
    fn meta(&self) -> RuleMeta;

    fn phase(&self) -> Phase;

    fn priority(&self) -> (r: u16)
        default_ensures
            r == 100,
    {
        100
    }

    fn matches(&self, ctx: &RuleContext) -> bool
        requires
            ctx.wf(),
    ;

    fn apply(&self, ctx: &mut RuleContext) -> Result<RuleResult, String>
        requires
            old(ctx).wf(),
    ;
}

} // verus!
