//! Math symbol encoding with Korean spacing rules.
//!
//! Math symbols (＋, −, ×, ÷, etc.) need spacing around them when
//! adjacent to Korean text, unless the Korean is a grammatical particle (josa).
use vstd::prelude::*;

use crate::char_struct::CharType;
use crate::math_symbol_shortcut::{encode_char_math_symbol_shortcut, spec_math_symbol_cells};
use crate::rules::context::{output_of, RuleContext};
use crate::rules::traits::{BrailleRule, Phase, RuleResult};
use crate::rules::RuleMeta;
use crate::utils::{is_korean_char, spec_is_korean_char};

verus! {

pub fn meta() -> (r: RuleMeta)
    ensures
        r.section@ == "math"@,
        r.subsection is None,
        r.name@ == "math_symbol_encoding"@,
        r.standard_ref@ == "2024 Korean Braille Standard (math symbols)"@,
        r.description@ == "Math symbols with Korean spacing rules"@,
{
    proof {
        reveal_strlit("math");
        reveal_strlit("math_symbol_encoding");
    }
    RuleMeta {
        section: "math",
        subsection: None,
        name: "math_symbol_encoding",
        standard_ref: "2024 Korean Braille Standard (math symbols)",
        description: "Math symbols with Korean spacing rules",
    }
}

/// Korean particles (josa) before which an operator is not spaced:
/// 과, 와, 이다, 하고, 이랑, 랑, 아니다.
pub open spec fn spec_is_josa(s: Seq<char>) -> bool {
    ||| s.len() == 1 && (s[0] == '과' || s[0] == '와' || s[0] == '랑')
    ||| s.len() == 2 && ((s[0] == '이' && s[1] == '다') || (s[0] == '하' && s[1] == '고')
        || (s[0] == '이' && s[1] == '랑'))
    ||| s.len() == 3 && s[0] == '아' && s[1] == '니' && s[2] == '다'
}

/// The first position at or after `i` that holds a Korean character
/// (`s.len()` if none).
pub open spec fn first_korean_from(s: Seq<char>, i: int) -> int
    decreases s.len() - i,
{
    if i < 0 || i >= s.len() {
        if i < 0 { 0 } else { i }
    } else if spec_is_korean_char(s[i]) {
        i
    } else {
        first_korean_from(s, i + 1)
    }
}

/// The first position at or after `i` that does not hold a Korean
/// character (`s.len()` if none).
pub open spec fn korean_run_end(s: Seq<char>, i: int) -> int
    decreases s.len() - i,
{
    if i < 0 || i >= s.len() {
        if i < 0 { 0 } else { i }
    } else if !spec_is_korean_char(s[i]) {
        i
    } else {
        korean_run_end(s, i + 1)
    }
}

/// The first run of Korean characters after position `index`, skipping the
/// characters before it that are not Korean.
pub open spec fn next_korean_run(s: Seq<char>, index: int) -> Seq<char> {
    let start = first_korean_from(s, index + 1);
    s.subrange(start, korean_run_end(s, start))
}

/// The operator at `index` has Korean before it in the word.
pub open spec fn prev_has_korean(s: Seq<char>, index: int) -> bool {
    exists|j: int| 0 <= j < index && spec_is_korean_char(#[trigger] s[j])
}

/// The operator at `index` stands directly in parentheses: `(+)`.
pub open spec fn immediately_parenthesized(s: Seq<char>, index: int) -> bool {
    index > 0 && s[index - 1] == '(' && index + 1 < s.len() && s[index + 1] == ')'
}

/// Rule 46: spaces around the operator when it stands between Korean
/// expressions and the Korean after it is not a particle, unless the
/// operator is parenthesized (rule 49).
pub open spec fn spec_pad_spaces(s: Seq<char>, index: int) -> bool {
    let run = next_korean_run(s, index);
    &&& prev_has_korean(s, index)
    &&& run.len() > 0
    &&& !spec_is_josa(run)
    &&& !immediately_parenthesized(s, index)
}

proof fn lemma_first_korean_bounds(s: Seq<char>, i: int)
    requires
        0 <= i <= s.len(),
    ensures
        i <= first_korean_from(s, i) <= s.len(),
        first_korean_from(s, i) < s.len() ==> spec_is_korean_char(s[first_korean_from(s, i)]),
    decreases s.len() - i,
{
    if i < s.len() && !spec_is_korean_char(s[i]) {
        lemma_first_korean_bounds(s, i + 1);
    }
}

proof fn lemma_korean_run_bounds(s: Seq<char>, i: int)
    requires
        0 <= i <= s.len(),
    ensures
        i <= korean_run_end(s, i) <= s.len(),
        forall|j: int| i <= j < korean_run_end(s, i) ==> spec_is_korean_char(#[trigger] s[j]),
    decreases s.len() - i,
{
    if i < s.len() && spec_is_korean_char(s[i]) {
        lemma_korean_run_bounds(s, i + 1);
    }
}

fn is_josa(s: &[char], start: usize, end: usize) -> (r: bool)
    requires
        start <= end <= s@.len(),
    ensures
        r == spec_is_josa(s@.subrange(start as int, end as int)),
{
    let t = Ghost(s@.subrange(start as int, end as int));
    let n = end - start;
    if n == 1 {
        let a = s[start];
        assert(t@ =~= seq![a]);
        a == '과' || a == '와' || a == '랑'
    } else if n == 2 {
        let a = s[start];
        let b = s[start + 1];
        assert(t@ =~= seq![a, b]);
        (a == '이' && b == '다') || (a == '하' && b == '고') || (a == '이' && b == '랑')
    } else if n == 3 {
        let a = s[start];
        let b = s[start + 1];
        let c = s[start + 2];
        assert(t@ =~= seq![a, b, c]);
        a == '아' && b == '니' && c == '다'
    } else {
        assert(t@.len() == n);
        false
    }
}

/// Whether spaces go around the operator at `index`.
fn pad_spaces(s: &[char], index: usize) -> (r: bool)
    requires
        index < s@.len(),
    ensures
        r == spec_pad_spaces(s@, index as int),
{
    let mut prev_has = false;
    let mut j: usize = 0;
    while j < index
        invariant
            j <= index < s@.len(),
            prev_has == exists|k: int| 0 <= k < j && spec_is_korean_char(#[trigger] s@[k]),
        decreases index - j,
    {
        if is_korean_char(s[j]) {
            prev_has = true;
        }
        j += 1;
    }

    let len = s.len();
    let mut start: usize = index + 1;
    proof { lemma_first_korean_bounds(s@, index + 1); }
    while start < s.len() && !is_korean_char(s[start])
        invariant
            index + 1 <= start <= s@.len(),
            first_korean_from(s@, start as int) == first_korean_from(s@, index + 1),
        decreases s@.len() - start,
    {
        start += 1;
    }
    let mut end: usize = start;
    while end < s.len() && is_korean_char(s[end])
        invariant
            start <= end <= s@.len(),
            korean_run_end(s@, end as int) == korean_run_end(s@, start as int),
        decreases s@.len() - end,
    {
        end += 1;
    }
    let next_non_josa = if end == start {
        false
    } else {
        !is_josa(s, start, end)
    };
    let parenthesized = index > 0 && s[index - 1] == '(' && index + 1 < s.len() && s[index + 1]
        == ')';
    prev_has && next_non_josa && !parenthesized
}

/// What applying the rule does to the context: for a mathematical symbol,
/// the operator's cells, with a blank cell on each side when rule 46 asks for
/// spaces; any other character is skipped.
pub open spec fn spec_apply_ok(old_ctx: RuleContext, new_ctx: RuleContext, r: RuleResult) -> bool {
    match *old_ctx.char_type {
        CharType::MathSymbol(c) => {
            let pad = spec_pad_spaces(old_ctx.word_chars@, old_ctx.index as int);
            let space: Seq<u8> = if pad { seq![0u8] } else { Seq::empty() };
            &&& spec_math_symbol_cells(c) is Some
            &&& r == RuleResult::Consumed
            &&& new_ctx.result@ == old_ctx.result@ + space + spec_math_symbol_cells(c)->0 + space
        },
        _ => r == RuleResult::Skip && new_ctx.result@ == old_ctx.result@,
    }
}

/// The particles (josa) before which an operator is not spaced: 과, 와,
/// 이다, 하고, 이랑, 랑, 아니다.
pub open spec fn particles() -> Seq<Seq<char>> {
    seq![
        seq!['과'],
        seq!['와'],
        seq!['이', '다'],
        seq!['하', '고'],
        seq!['이', '랑'],
        seq!['랑'],
        seq!['아', '니', '다'],
    ]
}

proof fn lemma_particles_are_josa(run: Seq<char>)
    ensures
        particles().contains(run) <==> spec_is_josa(run),
{
    let p = particles();
    if particles().contains(run) {
        let k = choose|k: int| 0 <= k < p.len() && p[k] == run;
        assert(0 <= k < 7);
    }
    if spec_is_josa(run) {
        if run.len() == 1 {
            if run[0] == '과' {
                assert(run =~= p[0]);
            } else if run[0] == '와' {
                assert(run =~= p[1]);
            } else {
                assert(run =~= p[5]);
            }
        } else if run.len() == 2 {
            if run[0] == '이' && run[1] == '다' {
                assert(run =~= p[2]);
            } else if run[0] == '하' {
                assert(run =~= p[3]);
            } else {
                assert(run =~= p[4]);
            }
        } else {
            assert(run =~= p[6]);
        }
    }
}

/// An operator is never spaced when the Korean after it is a particle
/// (`반지름×3.14이다`, `길이×10과`).
pub proof fn lemma_no_space_before_particle(s: Seq<char>, index: int)
    requires
        particles().contains(next_korean_run(s, index)),
    ensures
        !spec_pad_spaces(s, index),
{
    lemma_particles_are_josa(next_korean_run(s, index));
}

/// An operator between Korean expressions is spaced on both sides when the
/// Korean after it is no particle and it does not stand in parentheses
/// (`5개=2개`).
pub proof fn lemma_space_between_korean_expressions(s: Seq<char>, index: int)
    requires
        prev_has_korean(s, index),
        next_korean_run(s, index).len() > 0,
        !particles().contains(next_korean_run(s, index)),
        !immediately_parenthesized(s, index),
    ensures
        spec_pad_spaces(s, index),
{
    lemma_particles_are_josa(next_korean_run(s, index));
}

/// The operator's cells of a context whose character is an operator.
pub open spec fn operator_cells(ctx: RuleContext) -> Seq<u8> {
    spec_math_symbol_cells(ctx.char_type->MathSymbol_0)->0
}

/// Applying the rule to an operator followed by a particle writes the
/// operator's cells alone, without spaces.
pub proof fn lemma_operator_before_particle_unspaced(before: RuleContext, after: RuleContext, r: RuleResult)
    requires
        *before.char_type is MathSymbol,
        spec_apply_ok(before, after, r),
        particles().contains(next_korean_run(before.word_chars@, before.index as int)),
    ensures
        output_of(after) == output_of(before) + operator_cells(before),
{
    lemma_no_space_before_particle(before.word_chars@, before.index as int);
    assert(before.result@ + Seq::<u8>::empty() + operator_cells(before) + Seq::<u8>::empty() =~= before.result@ + operator_cells(before));
}

pub struct RuleMath;

impl BrailleRule for RuleMath {
    fn meta(&self) -> (r: RuleMeta)
        ensures
            r.section@ == "math"@,
            r.subsection is None,
            r.name@ == "math_symbol_encoding"@,
            r.standard_ref@ == "2024 Korean Braille Standard (math symbols)"@,
            r.description@ == "Math symbols with Korean spacing rules"@,
    {
        meta()
    }

    fn phase(&self) -> (r: Phase)
        ensures
            r == Phase::CoreEncoding,
    {
        Phase::CoreEncoding
    }

    fn matches(&self, ctx: &RuleContext) -> (r: bool)
        ensures
            r == (*ctx.char_type is MathSymbol),
    {
        match ctx.char_type {
            CharType::MathSymbol(_) => true,
            _ => false,
        }
    }

    fn apply(&self, ctx: &mut RuleContext) -> (r: Result<RuleResult, String>)
        ensures
            final(ctx).same_input(old(ctx)),
            *final(ctx).state == *old(ctx).state,
            *final(ctx).skip_count == *old(ctx).skip_count,
            r matches Ok(res) ==> spec_apply_ok(*old(ctx), *final(ctx), res),
            r is Err <==> (*old(ctx).char_type is MathSymbol
                && spec_math_symbol_cells(old(ctx).char_type->MathSymbol_0) is None),
            r matches Err(m) ==> m@ == "unsupported math symbol"@ && final(ctx).result@
                == old(ctx).result@ + if spec_pad_spaces(old(ctx).word_chars@, old(ctx).index as int) {
                seq![0u8]
            } else {
                Seq::<u8>::empty()
            },
    {
        let c = match ctx.char_type {
            CharType::MathSymbol(c) => *c,
            _ => return Ok(RuleResult::Skip),
        };

        // Rule 46: spaces around + − × ÷ = only between Korean expressions,
        // and not before a particle; rule 49: not inside `(+)`.
        let pad = pad_spaces(ctx.word_chars, ctx.index);
        let ghost before = ctx.result@;
        let ghost space: Seq<u8> = if pad { seq![0u8] } else { Seq::empty() };

        if pad {
            ctx.emit(0);
        }
        assert(ctx.result@ =~= before + space);

        // The space before the operator is already written when an unknown
        // operator is refused.
        let encoded = encode_char_math_symbol_shortcut(c)?;
        ctx.emit_slice(encoded.as_slice());

        if pad {
            ctx.emit(0);
        }
        assert(ctx.result@ =~= before + space + encoded@ + space);

        Ok(RuleResult::Consumed)
    }
}

} // verus!
