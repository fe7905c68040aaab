//! Caveman-mode system-prompt directive.
//!
//! The directive is inlined rather than taken from an agent plugin so the same
//! behavior applies to every backend regardless of what the user has installed.
//!
//! [`system_prompt`] returns the empty string when caveman mode is disabled,
//! so callers can unconditionally use it as the system prompt of a dispatch.

use vstd::prelude::*;
use vstd::string::StringExecFns;

use crate::config::{CavemanConfig, CavemanIntensity};
use crate::text;

verus! {

/// What the directive says between the name of the intensity and its rule.
pub const RULES: &'static str = "\n\
    \n\
    Respond terse like smart caveman. All technical substance stay. \
    Only fluff die. ACTIVE EVERY RESPONSE — no revert after many turns, \
    no filler drift.\n\
    \n\
    Rules:\n\
    - Drop articles (a/an/the), filler (just/really/basically/actually/simply), \
    pleasantries (sure/certainly/of course/happy to), hedging.\n\
    - Fragments OK. Short synonyms (big not extensive, fix not \"implement a solution for\").\n\
    - Technical terms exact. Code blocks unchanged. Errors quoted exact.\n\
    - Pattern: [thing] [action] [reason]. [next step].\n\
    - Not: \"Sure! I'd be happy to help. The issue is likely caused by...\"\n\
    - Yes: \"Bug in auth middleware. Token expiry check use `<` not `<=`. Fix:\"\n\
    \n";

/// What the directive says after the rule of the intensity.
pub const BOUNDARIES: &'static str = "\n\
    \n\
    Auto-clarity: drop caveman style for security warnings, irreversible action \
    confirmations, and multi-step sequences where fragment order risks misread. \
    Resume after the clear part is done.\n\
    \n\
    Boundaries: code, commit messages, PR descriptions, and structured artifacts \
    (`plan.md` phase bodies, `deferred.md` entries) follow their normal format — \
    caveman style applies to prose only.\n";

/// The rule of the lite intensity.
pub const LITE_RULE: &'static str =
    "LITE: drop filler/hedging only. Keep articles + full sentences. Professional but tight.";

/// The rule of the full intensity.
pub const FULL_RULE: &'static str =
    "FULL: drop articles, fragments OK, short synonyms. Classic caveman.";

/// The rule of the ultra intensity.
pub const ULTRA_RULE: &'static str =
    "ULTRA: abbreviate (DB/auth/config/req/res/fn/impl), strip conjunctions, arrows for causality (X → Y), one word when one word enough.";

/// The name of an intensity.
pub open spec fn intensity_label(i: CavemanIntensity) -> Seq<char> {
    match i {
        CavemanIntensity::Lite => "lite"@,
        CavemanIntensity::Full => "full"@,
        CavemanIntensity::Ultra => "ultra"@,
    }
}

/// The rule of an intensity.
pub open spec fn intensity_rule(i: CavemanIntensity) -> Seq<char> {
    match i {
        CavemanIntensity::Lite => LITE_RULE@,
        CavemanIntensity::Full => FULL_RULE@,
        CavemanIntensity::Ultra => ULTRA_RULE@,
    }
}

/// The directive of a caveman mode.
pub open spec fn directive(cfg: CavemanConfig) -> Seq<char> {
    if cfg.enabled {
        "CAVEMAN MODE ACTIVE — intensity: "@ + intensity_label(cfg.intensity) + RULES@
            + intensity_rule(cfg.intensity) + BOUNDARIES@
    } else {
        Seq::empty()
    }
}

/// Without the mode nothing is asked of an agent. With it the directive names the
/// intensity and carries the rule of that intensity.
pub proof fn directives_carry_their_intensity(cfg: CavemanConfig)
    ensures
        !cfg.enabled ==> directive(cfg).len() == 0,
        cfg.enabled ==> {
            &&& cfg.intensity is Lite ==> text::contains(directive(cfg), "intensity: lite"@)
                && text::contains(directive(cfg), LITE_RULE@)
            &&& cfg.intensity is Full ==> text::contains(directive(cfg), "intensity: full"@)
                && text::contains(directive(cfg), FULL_RULE@)
            &&& cfg.intensity is Ultra ==> text::contains(directive(cfg), "intensity: ultra"@)
                && text::contains(directive(cfg), ULTRA_RULE@)
            &&& text::contains(directive(cfg), RULES@)
            &&& text::contains(directive(cfg), BOUNDARIES@)
        },
{
    if cfg.enabled {
        let whole = directive(cfg);
        let start = "CAVEMAN MODE ACTIVE — intensity: "@;
        let label = intensity_label(cfg.intensity);
        let rule = intensity_rule(cfg.intensity);
        text::parts_are_held(start + label + RULES@, rule, BOUNDARIES@, whole);
        text::parts_are_held(start + label, RULES@, rule + BOUNDARIES@, whole);
        text::parts_are_held(start + label + RULES@ + rule, BOUNDARIES@, Seq::empty(), whole);
        reveal_strlit("CAVEMAN MODE ACTIVE — intensity: ");
        reveal_strlit("intensity: lite");
        reveal_strlit("intensity: full");
        reveal_strlit("intensity: ultra");
        reveal_strlit("lite");
        reveal_strlit("full");
        reveal_strlit("ultra");
        let front = start.take(22);
        let named = match cfg.intensity {
            CavemanIntensity::Lite => "intensity: lite"@,
            CavemanIntensity::Full => "intensity: full"@,
            CavemanIntensity::Ultra => "intensity: ultra"@,
        };
        assert(start + label =~= front + named);
        text::parts_are_held(front, named, RULES@ + rule + BOUNDARIES@, whole);
    }
}

/// System-prompt addendum for the configured caveman mode.
///
/// Returns the empty string when [`CavemanConfig::enabled`] is `false`, which
/// preserves the plain behavior at every dispatch site.
pub fn system_prompt(cfg: &CavemanConfig) -> (r: String)
    ensures
        r@ == directive(*cfg),
{
    if !cfg.enabled {
        return String::new();
    }
    let mut out = text::owned("CAVEMAN MODE ACTIVE — intensity: ");
    out.append(
        match cfg.intensity {
            CavemanIntensity::Lite => "lite",
            CavemanIntensity::Full => "full",
            CavemanIntensity::Ultra => "ultra",
        },
    );
    out.append(RULES);
    out.append(
        match cfg.intensity {
            CavemanIntensity::Lite => LITE_RULE,
            CavemanIntensity::Full => FULL_RULE,
            CavemanIntensity::Ultra => ULTRA_RULE,
        },
    );
    out.append(BOUNDARIES);
    out
}

} // verus!
