//! The prompt template shipped with pitboss.
//!
//! `pitboss prompts new <name>` writes [`NEW_PROMPT_RAW`] with the `__NAME__`
//! placeholder replaced.

use vstd::prelude::*;

use crate::text;

verus! {

/// Raw template body for `pitboss prompts new`. Contains the literal token
/// `__NAME__` which callers replace with the validated prompt name before
/// writing to disk.
pub const NEW_PROMPT_RAW: &'static str = "---\n\
    name: __NAME__\n\
    description: Describe what this prompt does in one line.\n\
    weight: 1\n\
    every: 1\n\
    verify: false\n\
    parallel_safe: false\n\
    tags: []\n\
    ---\n\
    Write the instructions for the agent here.\n";

/// Render the `New` template for a prompt named `name`. The caller is
/// responsible for validating `name` against the prompt-name regex; this
/// helper only performs literal substitution.
pub fn render_new_prompt(name: &str) -> (r: String)
    ensures
        r@ == text::replace(NEW_PROMPT_RAW@, "__NAME__"@, name@),
{
    proof {
        reveal_strlit("__NAME__");
    }
    text::replaced(NEW_PROMPT_RAW, "__NAME__", name)
}

} // verus!
