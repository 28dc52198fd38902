//! What a script asks of an export.
use crate::double::Real;
use crate::lists::{lemma_first, lemma_first_is};
use crate::script_plan::{
    bare, effect_name, transition_effect, underscored, LayerTransitionEffect, PassParamView,
    PassTransitionMode, PlanView, ScriptPassView,
};
use crate::text::{is_space, lower, lowered, trimmed};
use vstd::prelude::*;

verus! {

// ---------------------------------------------------------------------------
// Names
// ---------------------------------------------------------------------------

/// Whether a name is of small letters, underscores and dots.
pub open spec fn is_small_name(name: Seq<char>) -> bool {
    forall|i: int|
        0 <= i < name.len() ==> ('a' <= #[trigger] name[i] <= 'z' || name[i] == '_' || name[i]
            == '.')
}

/// A name of small letters means itself, whether with hyphens for its underscores, or with capitals.
pub proof fn small_name_means_itself(name: Seq<char>, written: Seq<char>)
    requires
        is_small_name(name),
        written.len() == name.len(),
        forall|i: int|
            0 <= i < name.len() ==> #[trigger] written[i] == name[i] || (name[i] == '_' && written[i]
                == '-') || ('A' <= written[i] <= 'Z' && written[i] as int + 32 == name[i] as int),
    ensures
        underscored(effect_name(written)) == name,
{
    assert forall|i: int| 0 <= i < written.len() implies !is_space(#[trigger] written[i])
        && written[i] != '"' by {
        assert(name[i] == name[i]);
    }
    assert(trimmed(written) == written);
    assert(bare(written) == written);
    assert forall|i: int| 0 <= i < name.len() implies underscored(lowered(written))[i]
        == name[i] by {
        let c = written[i];
        if c == name[i] || c == '-' {
            assert(lower(c) == c);
        } else {
            assert(((c as u32) + 32) as char == name[i]);
        }
    }
    assert(underscored(lowered(written)) =~= name);
}

/// White space and quotation marks around a name do not count.
pub proof fn quoted_name_means_the_name(name: Seq<char>)
    requires
        is_small_name(name),
        name.len() > 0,
    ensures
        effect_name(seq![' ', '"'] + name + seq!['"', ' ']) == name,
{
    let full = seq![' ', '"'] + name + seq!['"', ' '];
    let n = name.len() as int;
    let quoted = seq!['"'] + name + seq!['"'];
    assert(full.drop_first() =~= quoted + seq![' ']);
    assert(crate::text::trimmed_start(full) == quoted + seq![' ']) by {
        reveal_with_fuel(crate::text::trimmed_start, 3);
    }
    assert((quoted + seq![' ']).drop_last() =~= quoted);
    assert((quoted + seq![' ']).last() == ' ');
    assert(quoted.last() == '"');
    assert(trimmed(full) == quoted) by {
        reveal_with_fuel(crate::text::trimmed_end, 3);
    }
    let half = name + seq!['"'];
    assert(quoted.drop_first() =~= half);
    assert(half[0] == name[0]);
    assert(crate::script_plan::unquoted_start(quoted) == half) by {
        reveal_with_fuel(crate::script_plan::unquoted_start, 3);
    }
    assert(half.drop_last() =~= name);
    assert(half.last() == '"');
    assert(name.last() == name[n - 1]);
    assert(crate::script_plan::unquoted_end(half) == name) by {
        reveal_with_fuel(crate::script_plan::unquoted_end, 3);
    }
    assert(trimmed(name) == name) by {
        assert(name[0] == name[0]);
        assert(name[n - 1] == name[n - 1]);
    }
    assert(lowered(name) =~= name);
}

// ---------------------------------------------------------------------------
// Passes
// ---------------------------------------------------------------------------

/// Whether a parameter of a pass is the first of its name and is a number.
pub open spec fn says_number(pass: ScriptPassView, i: int, key: Seq<char>, n: Real) -> bool {
    &&& 0 <= i < pass.params.len()
    &&& pass.params[i].key == key
    &&& pass.params[i].number == Some(n)
    &&& forall|j: int| 0 <= j < i ==> (#[trigger] pass.params[j]).key != key
}

proof fn lemma_number(pass: ScriptPassView, i: int, key: Seq<char>, n: Real)
    requires
        says_number(pass, i, key, n),
    ensures
        pass.number(key) == Some(n),
{
    let p = |x: PassParamView| x.key == key;
    assert forall|j: int| 0 <= j < i implies !p(#[trigger] pass.params[j]) by {}
    lemma_first_is(pass.params, p, i);
}

/// Every pass of a script counts, in turn: one more pass changes the plan of those before it.
pub proof fn every_pass_counts(plan: PlanView, passes: Seq<ScriptPassView>, pass: ScriptPassView)
    ensures
        plan.with_passes(seq![]) == plan,
        plan.with_passes(seq![pass]) == plan.with_pass(pass),
        plan.with_passes(passes.push(pass)) == plan.with_passes(passes).with_pass(pass),
{
    assert(passes.push(pass).drop_last() =~= passes);
    assert(seq![pass].drop_last() =~= seq![]);
    assert(plan.with_passes(seq![]) == plan);
}

/// A pass that blurs makes the plan blur at least that much, and one that sharpens, sharpen: the
/// strongest of all counts. A number is at most 64; at most a thousandth counts as nothing.
pub proof fn strongest_blur_is_planned(plan: PlanView, pass: ScriptPassView, i: int, n: Real)
    requires
        pass.kernel == Some("blur_sharpen_detail_gaussian.wgsl"@) || pass.kernel == Some(
            "blur_sharpen_detail_gaussian_5tap.wgsl"@,
        ) || pass.kernel == Some("effect_for_testing_run.wgsl"@),
        says_number(pass, i, "sigma"@, n),
    ensures
        ({
            let after = plan.with_pass(pass);
            let name = underscored(effect_name(pass.effect));
            let sharpens = name == "sharpen"@ || name == "unsharp"@;
            let seen = 0x3f50_624d_d2f1_a9fc < n.bits <= 0x4050_0000_0000_0000;
            &&& n.bits <= 0x3f50_624d_d2f1_a9fc ==> after == plan
            &&& seen && !sharpens ==> after.sharpen_sigma == plan.sharpen_sigma
                && match plan.blur_sigma {
                None => after.blur_sigma == Some(n),
                Some(b) => b.bits < 0x7ff0_0000_0000_0000 ==> after.blur_sigma == Some(
                    if b.bits < n.bits {
                        n
                    } else {
                        b
                    },
                ),
            }
            &&& seen && sharpens ==> after.blur_sigma == plan.blur_sigma
                && match plan.sharpen_sigma {
                None => after.sharpen_sigma == Some(n),
                Some(b) => b.bits < 0x7ff0_0000_0000_0000 ==> after.sharpen_sigma == Some(
                    if b.bits < n.bits {
                        n
                    } else {
                        b
                    },
                ),
            }
            &&& after.transitions == plan.transitions
            &&& after.opacity_factor == plan.opacity_factor
            &&& after.lut_mix == plan.lut_mix
            &&& after.hsla_overlay == plan.hsla_overlay
        }),
{
    lemma_number(pass, i, "sigma"@, n);
    assert(pass.number_of(seq!["sigma"@]) == Some(n));
    lemma_kernels();
    reveal(PlanView::with_blur);
}

proof fn lemma_kernels()
    ensures
        "transition_core.wgsl"@ != "blur_sharpen_detail_gaussian.wgsl"@,
        "transition_core.wgsl"@ != "blur_sharpen_detail_gaussian_5tap.wgsl"@,
        "transition_core.wgsl"@ != "effect_for_testing_run.wgsl"@,
        "transition_core.wgsl"@ != "composite_core.wgsl"@,
        "transition_core.wgsl"@ != "color_core.wgsl"@,
        "composite_core.wgsl"@ != "blur_sharpen_detail_gaussian.wgsl"@,
        "composite_core.wgsl"@ != "blur_sharpen_detail_gaussian_5tap.wgsl"@,
        "composite_core.wgsl"@ != "effect_for_testing_run.wgsl"@,
        "composite_core.wgsl"@ != "color_core.wgsl"@,
        "color_core.wgsl"@ != "blur_sharpen_detail_gaussian.wgsl"@,
        "color_core.wgsl"@ != "blur_sharpen_detail_gaussian_5tap.wgsl"@,
        "color_core.wgsl"@ != "effect_for_testing_run.wgsl"@,
{
    reveal_strlit("transition_core.wgsl");
    reveal_strlit("blur_sharpen_detail_gaussian.wgsl");
    reveal_strlit("blur_sharpen_detail_gaussian_5tap.wgsl");
    reveal_strlit("effect_for_testing_run.wgsl");
    reveal_strlit("composite_core.wgsl");
    reveal_strlit("color_core.wgsl");
    assert("transition_core.wgsl"@[0] == 't');
    assert("blur_sharpen_detail_gaussian.wgsl"@[0] == 'b');
    assert("blur_sharpen_detail_gaussian_5tap.wgsl"@[0] == 'b');
    assert("effect_for_testing_run.wgsl"@[0] == 'e');
    assert("composite_core.wgsl"@[2] == 'm');
    assert("color_core.wgsl"@[0] == 'c');
    assert("color_core.wgsl"@[2] == 'l');
    assert("composite_core.wgsl"@[0] == 'c');
}

/// Of the opacities that passes ask for the least counts, between 0 and 1.
pub proof fn least_opacity_is_planned(plan: PlanView, pass: ScriptPassView, i: int, n: Real)
    requires
        pass.kernel == Some("composite_core.wgsl"@),
        effect_name(pass.effect) == "opacity"@ || effect_name(pass.effect)
            == "composite.opacity"@,
        says_number(pass, i, "opacity"@, n),
        n.bits <= 0x7ff0_0000_0000_0000,
    ensures
        ({
            let after = plan.with_pass(pass);
            let share = if n.bits < 0x3ff0_0000_0000_0000 {
                n
            } else {
                Real { bits: 0x3ff0_0000_0000_0000 }
            };
            &&& plan.opacity_factor is None ==> after.opacity_factor == Some(share)
            &&& plan.opacity_factor matches Some(b) ==> b.bits <= 0x7ff0_0000_0000_0000
                ==> after.opacity_factor == Some(
                if share.bits < b.bits {
                    share
                } else {
                    b
                },
            )
            &&& after.transitions == plan.transitions
            &&& after.blur_sigma == plan.blur_sigma
            &&& after.sharpen_sigma == plan.sharpen_sigma
            &&& after.lut_mix == plan.lut_mix
            &&& after.hsla_overlay == plan.hsla_overlay
        }),
{
    lemma_number(pass, i, "opacity"@, n);
    assert(pass.number_of(seq!["opacity"@]) == Some(n));
    lemma_kernels();
    reveal(PlanView::with_opacity);
}

/// A transition that is not switched off is planned behind the others, with the length that it says,
/// and six tenths of a second where it says none. One that is switched off is not planned.
pub proof fn transition_is_planned(plan: PlanView, pass: ScriptPassView, i: int, n: Real)
    requires
        pass.kernel == Some("transition_core.wgsl"@),
        ({
            let name = underscored(effect_name(pass.effect));
            name == "fade_in"@ || name == "fade_out"@ || name == "dip"@ || name == "dip_to_black"@
        }),
    ensures
        ({
            let name = underscored(effect_name(pass.effect));
            let after = plan.with_pass(pass);
            let last = after.transitions.last();
            let count = plan.transitions.len() as int;
            let off = pass.transition == Some(PassTransitionMode::Off);
            &&& off ==> after == plan
            &&& !off ==> after.transitions.len() == count + 1
            &&& !off ==> after.transitions.take(count) == plan.transitions
            &&& !off && name == "fade_in"@ ==> last.effect == LayerTransitionEffect::FadeIn
            &&& !off && name == "fade_out"@ ==> last.effect == LayerTransitionEffect::FadeOut
            &&& !off && (name == "dip"@ || name == "dip_to_black"@) ==> last.effect
                == LayerTransitionEffect::Dip
            &&& !off && says_number(pass, i, "durationSec"@, n) && 0x3f1a_36e2_eb1c_432d <= n.bits
                <= 0x7ff0_0000_0000_0000 ==> last.duration_sec == n
            &&& !off && (forall|k: int|
                0 <= k < pass.params.len() ==> (#[trigger] pass.params[k]).key != "durationSec"@
                    && pass.params[k].key != "duration_sec"@) ==> last.duration_sec.bits
                == 0x3fe3_3333_3333_3333
            &&& !off && says_number(pass, i, "startSec"@, n) ==> last.start_sec == Some(n)
            &&& after.blur_sigma == plan.blur_sigma
            &&& after.sharpen_sigma == plan.sharpen_sigma
            &&& after.opacity_factor == plan.opacity_factor
            &&& after.lut_mix == plan.lut_mix
            &&& after.hsla_overlay == plan.hsla_overlay
        }),
{
    lemma_kernels();
    reveal(PlanView::with_transition);
    reveal_strlit("fade_in");
    reveal_strlit("fade_out");
    reveal_strlit("dip");
    reveal_strlit("dip_to_black");
    assert("fade_in"@.len() == 7 && "fade_out"@.len() == 8 && "dip"@.len() == 3
        && "dip_to_black"@.len() == 12);
    assert(transition_effect(pass.effect) is Some);
    let lengths = seq!["durationSec"@, "duration_sec"@];
    let starts = seq!["startSec"@, "start_sec"@];
    if says_number(pass, i, "durationSec"@, n) {
        lemma_number(pass, i, "durationSec"@, n);
        assert(pass.number_of(lengths) == Some(n));
    }
    if says_number(pass, i, "startSec"@, n) {
        lemma_number(pass, i, "startSec"@, n);
        assert(pass.number_of(starts) == Some(n));
    }
    if forall|k: int|
        0 <= k < pass.params.len() ==> (#[trigger] pass.params[k]).key != "durationSec"@
            && pass.params[k].key != "duration_sec"@ {
        lemma_first(pass.params, |x: PassParamView| x.key == "durationSec"@);
        lemma_first(pass.params, |x: PassParamView| x.key == "duration_sec"@);
        assert(lengths.drop_first() =~= seq!["duration_sec"@]);
        assert(lengths.drop_first().drop_first() =~= seq![]);
        reveal_with_fuel(ScriptPassView::number_of, 3);
        assert(pass.number_of(lengths) is None);
    }
    let after = plan.with_pass(pass);
    if pass.transition != Some(PassTransitionMode::Off) {
        assert(after.transitions.take(plan.transitions.len() as int) =~= plan.transitions);
    }
}

} // verus!
