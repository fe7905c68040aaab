//! The prompt templates, and the proof that each of them renders.

use vstd::prelude::*;

use super::render;

verus! {

/// Approximate ceiling on the static portion of any single template.
///
/// The rendered prompt is variable in size (it embeds the current phase body,
/// `deferred.md`, diffs, etc.) so this budget bounds what we ship in source,
/// not what the agent sees. Tightening it forces template authors to keep
/// instructions terse; loosening it should be deliberate.
pub const TEMPLATE_STATIC_BUDGET: usize = 8_000;

/// What the implementer is told.
pub const IMPLEMENTER_TEMPLATE: &'static str = "You are the implementer for one phase of a larger plan. Work only inside this repository.\n\
    \n\
    # Order of work\n\
    1. Read the deferred list below and finish every unchecked item you can. Tick an item (`- [x]`) only when it is done.\n\
    2. Implement the phase below, and nothing beyond its scope.\n\
    3. Record anything you could not finish in `deferred.md`.\n\
    \n\
    # Hard rules\n\
    - Never edit `plan.md`. The runner owns it.\n\
    - Never touch anything under `.pitboss/`.\n\
    - Do not commit, branch or push.\n\
    - Leave the test suite passing.\n\
    \n\
    # Phase {phase_id}: {phase_title}\n\
    {phase_body}\n\
    # deferred.md\n\
    {deferred}";

/// The placeholders of [`IMPLEMENTER_TEMPLATE`].
pub open spec fn implementer_names() -> Seq<Seq<char>> {
    seq!["phase_id"@, "phase_title"@, "phase_body"@, "deferred"@]
}

pub proof fn implementer_renders()
    ensures
        render::only_holes(IMPLEMENTER_TEMPLATE@, implementer_names()),
{
    reveal(render::only_holes);
    let t = IMPLEMENTER_TEMPLATE@;
    let names = implementer_names();
    reveal_strlit("You are the implementer for one phase of a larger plan. Work only inside this repository.\n\
    \n\
    # Order of work\n\
    1. Read the deferred list below and finish every unchecked item you can. Tick an item (`- [x]`) only when it is done.\n\
    2. Implement the phase below, and nothing beyond its scope.\n\
    3. Record anything you could not finish in `deferred.md`.\n\
    \n\
    # Hard rules\n\
    - Never edit `plan.md`. The runner owns it.\n\
    - Never touch anything under `.pitboss/`.\n\
    - Do not commit, branch or push.\n\
    - Leave the test suite passing.\n\
    \n\
    # Phase {phase_id}: {phase_title}\n\
    {phase_body}\n\
    # deferred.md\n\
    {deferred}");
    reveal_strlit("phase_id");
    reveal_strlit("phase_title");
    reveal_strlit("phase_body");
    reveal_strlit("deferred");
    assert forall|i: int| 0 <= i < t.len() && #[trigger] t[i] == '{' implies exists|k: int|
        0 <= k < names.len() && render::hole_at(t, #[trigger] names[k], i) by {
        assert(render::hole_at(t, names[0], i)
            || render::hole_at(t, names[1], i)
            || render::hole_at(t, names[2], i)
            || render::hole_at(t, names[3], i));
    }
    assert forall|i: int| 0 <= i < t.len() && #[trigger] t[i] == '}' implies exists|k: int|
        0 <= k < names.len() && render::hole_at(t, #[trigger] names[k], i - 1 - names[k].len()) by {
        assert(render::hole_at(t, names[0], i - 1 - names[0].len())
            || render::hole_at(t, names[1], i - 1 - names[1].len())
            || render::hole_at(t, names[2], i - 1 - names[2].len())
            || render::hole_at(t, names[3], i - 1 - names[3].len()));
    }
}

/// What the auditor is told.
pub const AUDITOR_TEMPLATE: &'static str = "You are the auditor for one phase of a larger plan. Another agent has just implemented it and the tests pass.\n\
    \n\
    # Order of work\n\
    1. Read the diff against the phase below.\n\
    2. Fix what is wrong in place when the fix is small (≤ {small_fix_line_limit} lines).\n\
    3. Record anything larger in `deferred.md` as an unchecked item.\n\
    \n\
    # Hard rules\n\
    - Never edit `plan.md`. The runner owns it.\n\
    - Never touch anything under `.pitboss/`.\n\
    - Revert changes that have nothing to do with the phase.\n\
    \n\
    # Phase {phase_id}: {phase_title}\n\
    {phase_body}\n\
    # Diff produced by the implementer\n\
    {diff}\n\
    # deferred.md\n\
    {deferred}";

/// The placeholders of [`AUDITOR_TEMPLATE`].
pub open spec fn auditor_names() -> Seq<Seq<char>> {
    seq!["phase_id"@, "phase_title"@, "phase_body"@, "diff"@, "deferred"@, "small_fix_line_limit"@]
}

pub proof fn auditor_renders()
    ensures
        render::only_holes(AUDITOR_TEMPLATE@, auditor_names()),
{
    reveal(render::only_holes);
    let t = AUDITOR_TEMPLATE@;
    let names = auditor_names();
    reveal_strlit("You are the auditor for one phase of a larger plan. Another agent has just implemented it and the tests pass.\n\
    \n\
    # Order of work\n\
    1. Read the diff against the phase below.\n\
    2. Fix what is wrong in place when the fix is small (≤ {small_fix_line_limit} lines).\n\
    3. Record anything larger in `deferred.md` as an unchecked item.\n\
    \n\
    # Hard rules\n\
    - Never edit `plan.md`. The runner owns it.\n\
    - Never touch anything under `.pitboss/`.\n\
    - Revert changes that have nothing to do with the phase.\n\
    \n\
    # Phase {phase_id}: {phase_title}\n\
    {phase_body}\n\
    # Diff produced by the implementer\n\
    {diff}\n\
    # deferred.md\n\
    {deferred}");
    reveal_strlit("phase_id");
    reveal_strlit("phase_title");
    reveal_strlit("phase_body");
    reveal_strlit("diff");
    reveal_strlit("deferred");
    reveal_strlit("small_fix_line_limit");
    assert forall|i: int| 0 <= i < t.len() && #[trigger] t[i] == '{' implies exists|k: int|
        0 <= k < names.len() && render::hole_at(t, #[trigger] names[k], i) by {
        assert(render::hole_at(t, names[0], i)
            || render::hole_at(t, names[1], i)
            || render::hole_at(t, names[2], i)
            || render::hole_at(t, names[3], i)
            || render::hole_at(t, names[4], i)
            || render::hole_at(t, names[5], i));
    }
    assert forall|i: int| 0 <= i < t.len() && #[trigger] t[i] == '}' implies exists|k: int|
        0 <= k < names.len() && render::hole_at(t, #[trigger] names[k], i - 1 - names[k].len()) by {
        assert(render::hole_at(t, names[0], i - 1 - names[0].len())
            || render::hole_at(t, names[1], i - 1 - names[1].len())
            || render::hole_at(t, names[2], i - 1 - names[2].len())
            || render::hole_at(t, names[3], i - 1 - names[3].len())
            || render::hole_at(t, names[4], i - 1 - names[4].len())
            || render::hole_at(t, names[5], i - 1 - names[5].len()));
    }
}

/// What the fixer is told.
pub const FIXER_TEMPLATE: &'static str = "You are the fixer for one phase of a larger plan. Tests failed after the implementer ran.\n\
    \n\
    # Order of work\n\
    1. Read the test output and find the cause.\n\
    2. Make the smallest change that fixes it.\n\
    \n\
    # Hard rules\n\
    - Never edit `plan.md`. The runner owns it.\n\
    - Never touch anything under `.pitboss/`.\n\
    - Do not delete or weaken a test to make it pass.\n\
    \n\
    # Phase {phase_id}: {phase_title}\n\
    {phase_body}\n\
    # Test output\n\
    {test_output}\n\
    # deferred.md\n\
    {deferred}";

/// The placeholders of [`FIXER_TEMPLATE`].
pub open spec fn fixer_names() -> Seq<Seq<char>> {
    seq!["phase_id"@, "phase_title"@, "phase_body"@, "test_output"@, "deferred"@]
}

pub proof fn fixer_renders()
    ensures
        render::only_holes(FIXER_TEMPLATE@, fixer_names()),
{
    reveal(render::only_holes);
    let t = FIXER_TEMPLATE@;
    let names = fixer_names();
    reveal_strlit("You are the fixer for one phase of a larger plan. Tests failed after the implementer ran.\n\
    \n\
    # Order of work\n\
    1. Read the test output and find the cause.\n\
    2. Make the smallest change that fixes it.\n\
    \n\
    # Hard rules\n\
    - Never edit `plan.md`. The runner owns it.\n\
    - Never touch anything under `.pitboss/`.\n\
    - Do not delete or weaken a test to make it pass.\n\
    \n\
    # Phase {phase_id}: {phase_title}\n\
    {phase_body}\n\
    # Test output\n\
    {test_output}\n\
    # deferred.md\n\
    {deferred}");
    reveal_strlit("phase_id");
    reveal_strlit("phase_title");
    reveal_strlit("phase_body");
    reveal_strlit("test_output");
    reveal_strlit("deferred");
    assert forall|i: int| 0 <= i < t.len() && #[trigger] t[i] == '{' implies exists|k: int|
        0 <= k < names.len() && render::hole_at(t, #[trigger] names[k], i) by {
        assert(render::hole_at(t, names[0], i)
            || render::hole_at(t, names[1], i)
            || render::hole_at(t, names[2], i)
            || render::hole_at(t, names[3], i)
            || render::hole_at(t, names[4], i));
    }
    assert forall|i: int| 0 <= i < t.len() && #[trigger] t[i] == '}' implies exists|k: int|
        0 <= k < names.len() && render::hole_at(t, #[trigger] names[k], i - 1 - names[k].len()) by {
        assert(render::hole_at(t, names[0], i - 1 - names[0].len())
            || render::hole_at(t, names[1], i - 1 - names[1].len())
            || render::hole_at(t, names[2], i - 1 - names[2].len())
            || render::hole_at(t, names[3], i - 1 - names[3].len())
            || render::hole_at(t, names[4], i - 1 - names[4].len()));
    }
}

/// What the sweep implementer is told.
pub const SWEEP_TEMPLATE: &'static str = "You are the implementer for a deferred sweep. There is no phase to implement: drain the list of pending items.\n\
    \n\
    # Order of work\n\
    1. Take the pending items from the top and finish each one.\n\
    2. Tick an item (`- [x]`) in `deferred.md` only when the work is done. Never reword an item.\n\
    3. Leave an item you cannot finish as it is.\n\
    \n\
    # Hard rules\n\
    - Never edit `plan.md`. The runner owns it.\n\
    - Never touch anything under `.pitboss/`.\n\
    - Never edit `## Deferred phases` or any `### From phase X:` block.\n\
    - Leave the test suite passing.\n\
    \n\
    # Context\n\
    \n\
    {context}\n\
    \n\
    # Stale items\n\
    \n\
    {stale_items}\n\
    \n\
    # Pending items\n\
    \n\
    {deferred_items}";

/// The placeholders of [`SWEEP_TEMPLATE`].
pub open spec fn sweep_names() -> Seq<Seq<char>> {
    seq!["deferred_items"@, "stale_items"@, "context"@]
}

pub proof fn sweep_renders()
    ensures
        render::only_holes(SWEEP_TEMPLATE@, sweep_names()),
{
    reveal(render::only_holes);
    let t = SWEEP_TEMPLATE@;
    let names = sweep_names();
    reveal_strlit("You are the implementer for a deferred sweep. There is no phase to implement: drain the list of pending items.\n\
    \n\
    # Order of work\n\
    1. Take the pending items from the top and finish each one.\n\
    2. Tick an item (`- [x]`) in `deferred.md` only when the work is done. Never reword an item.\n\
    3. Leave an item you cannot finish as it is.\n\
    \n\
    # Hard rules\n\
    - Never edit `plan.md`. The runner owns it.\n\
    - Never touch anything under `.pitboss/`.\n\
    - Never edit `## Deferred phases` or any `### From phase X:` block.\n\
    - Leave the test suite passing.\n\
    \n\
    # Context\n\
    \n\
    {context}\n\
    \n\
    # Stale items\n\
    \n\
    {stale_items}\n\
    \n\
    # Pending items\n\
    \n\
    {deferred_items}");
    reveal_strlit("deferred_items");
    reveal_strlit("stale_items");
    reveal_strlit("context");
    assert forall|i: int| 0 <= i < t.len() && #[trigger] t[i] == '{' implies exists|k: int|
        0 <= k < names.len() && render::hole_at(t, #[trigger] names[k], i) by {
        assert(render::hole_at(t, names[0], i)
            || render::hole_at(t, names[1], i)
            || render::hole_at(t, names[2], i));
    }
    assert forall|i: int| 0 <= i < t.len() && #[trigger] t[i] == '}' implies exists|k: int|
        0 <= k < names.len() && render::hole_at(t, #[trigger] names[k], i - 1 - names[k].len()) by {
        assert(render::hole_at(t, names[0], i - 1 - names[0].len())
            || render::hole_at(t, names[1], i - 1 - names[1].len())
            || render::hole_at(t, names[2], i - 1 - names[2].len()));
    }
}

/// What the sweep fixer is told.
pub const SWEEP_FIXER_TEMPLATE: &'static str = "You are the fixer for a deferred sweep. Tests failed after the sweep implementer ran.\n\
    \n\
    # Order of work\n\
    1. Read the test output and find the cause in the items the sweep touched.\n\
    2. Make the smallest change that fixes it.\n\
    \n\
    # Hard rules\n\
    - Never edit `plan.md`. The runner owns it.\n\
    - Never touch anything under `.pitboss/`.\n\
    - Keep the patch scoped to the sweep.\n\
    \n\
    # Test output\n\
    {test_output}\n\
    # deferred.md\n\
    {deferred}";

/// The placeholders of [`SWEEP_FIXER_TEMPLATE`].
pub open spec fn sweep_fixer_names() -> Seq<Seq<char>> {
    seq!["test_output"@, "deferred"@]
}

pub proof fn sweep_fixer_renders()
    ensures
        render::only_holes(SWEEP_FIXER_TEMPLATE@, sweep_fixer_names()),
{
    reveal(render::only_holes);
    let t = SWEEP_FIXER_TEMPLATE@;
    let names = sweep_fixer_names();
    reveal_strlit("You are the fixer for a deferred sweep. Tests failed after the sweep implementer ran.\n\
    \n\
    # Order of work\n\
    1. Read the test output and find the cause in the items the sweep touched.\n\
    2. Make the smallest change that fixes it.\n\
    \n\
    # Hard rules\n\
    - Never edit `plan.md`. The runner owns it.\n\
    - Never touch anything under `.pitboss/`.\n\
    - Keep the patch scoped to the sweep.\n\
    \n\
    # Test output\n\
    {test_output}\n\
    # deferred.md\n\
    {deferred}");
    reveal_strlit("test_output");
    reveal_strlit("deferred");
    assert forall|i: int| 0 <= i < t.len() && #[trigger] t[i] == '{' implies exists|k: int|
        0 <= k < names.len() && render::hole_at(t, #[trigger] names[k], i) by {
        assert(render::hole_at(t, names[0], i)
            || render::hole_at(t, names[1], i));
    }
    assert forall|i: int| 0 <= i < t.len() && #[trigger] t[i] == '}' implies exists|k: int|
        0 <= k < names.len() && render::hole_at(t, #[trigger] names[k], i - 1 - names[k].len()) by {
        assert(render::hole_at(t, names[0], i - 1 - names[0].len())
            || render::hole_at(t, names[1], i - 1 - names[1].len()));
    }
}

/// What the sweep auditor is told.
pub const SWEEP_AUDITOR_TEMPLATE: &'static str = "You are the auditor for a deferred sweep. Another agent has just worked through `deferred.md` and the tests pass.\n\
    \n\
    Most recently completed phase: {after}\n\
    \n\
    # Order of work\n\
    1. For each resolved item, check that the diff actually does that work.\n\
    2. Fix what is wrong in place when the fix is small (≤ {small_fix_line_limit} lines). Otherwise untick the item.\n\
    3. Revert anything unrelated.\n\
    \n\
    # Hard rules\n\
    - Never edit `plan.md`. The runner owns it.\n\
    - Never touch anything under `.pitboss/`.\n\
    \n\
    # Resolved items\n\
    {resolved}\n\
    # Remaining items\n\
    {remaining}\n\
    # Stale items\n\
    {stale_items}\n\
    \n\
    # Diff produced by the sweep\n\
    {diff}\n\
    # deferred.md\n\
    {deferred}";

/// The placeholders of [`SWEEP_AUDITOR_TEMPLATE`].
pub open spec fn sweep_auditor_names() -> Seq<Seq<char>> {
    seq!["after"@, "diff"@, "resolved"@, "remaining"@, "stale_items"@, "deferred"@, "small_fix_line_limit"@]
}

pub proof fn sweep_auditor_renders()
    ensures
        render::only_holes(SWEEP_AUDITOR_TEMPLATE@, sweep_auditor_names()),
{
    reveal(render::only_holes);
    let t = SWEEP_AUDITOR_TEMPLATE@;
    let names = sweep_auditor_names();
    reveal_strlit("You are the auditor for a deferred sweep. Another agent has just worked through `deferred.md` and the tests pass.\n\
    \n\
    Most recently completed phase: {after}\n\
    \n\
    # Order of work\n\
    1. For each resolved item, check that the diff actually does that work.\n\
    2. Fix what is wrong in place when the fix is small (≤ {small_fix_line_limit} lines). Otherwise untick the item.\n\
    3. Revert anything unrelated.\n\
    \n\
    # Hard rules\n\
    - Never edit `plan.md`. The runner owns it.\n\
    - Never touch anything under `.pitboss/`.\n\
    \n\
    # Resolved items\n\
    {resolved}\n\
    # Remaining items\n\
    {remaining}\n\
    # Stale items\n\
    {stale_items}\n\
    \n\
    # Diff produced by the sweep\n\
    {diff}\n\
    # deferred.md\n\
    {deferred}");
    reveal_strlit("after");
    reveal_strlit("diff");
    reveal_strlit("resolved");
    reveal_strlit("remaining");
    reveal_strlit("stale_items");
    reveal_strlit("deferred");
    reveal_strlit("small_fix_line_limit");
    assert forall|i: int| 0 <= i < t.len() && #[trigger] t[i] == '{' implies exists|k: int|
        0 <= k < names.len() && render::hole_at(t, #[trigger] names[k], i) by {
        assert(render::hole_at(t, names[0], i)
            || render::hole_at(t, names[1], i)
            || render::hole_at(t, names[2], i)
            || render::hole_at(t, names[3], i)
            || render::hole_at(t, names[4], i)
            || render::hole_at(t, names[5], i)
            || render::hole_at(t, names[6], i));
    }
    assert forall|i: int| 0 <= i < t.len() && #[trigger] t[i] == '}' implies exists|k: int|
        0 <= k < names.len() && render::hole_at(t, #[trigger] names[k], i - 1 - names[k].len()) by {
        assert(render::hole_at(t, names[0], i - 1 - names[0].len())
            || render::hole_at(t, names[1], i - 1 - names[1].len())
            || render::hole_at(t, names[2], i - 1 - names[2].len())
            || render::hole_at(t, names[3], i - 1 - names[3].len())
            || render::hole_at(t, names[4], i - 1 - names[4].len())
            || render::hole_at(t, names[5], i - 1 - names[5].len())
            || render::hole_at(t, names[6], i - 1 - names[6].len()));
    }
}

/// What the planner is told.
pub const PLANNER_TEMPLATE: &'static str = "You are the planner. Break the goal below into phases that an implementer can take one at a time.\n\
    \n\
    # Format\n\
    - Begin with a YAML frontmatter between `---` lines that holds `current_phase: \"01\"`.\n\
    - Give each phase a heading `# Phase NN: Title`, with NN counting up from 01.\n\
    - Under each heading state the scope, the deliverables and the acceptance criteria.\n\
    - Keep each phase small enough to be reviewed in one sitting.\n\
    \n\
    Output ONLY the file contents.\n\
    \n\
    # Goal\n\
    {goal}\n\
    \n\
    # Repository\n\
    {repo_summary}\n\
    ";

/// The placeholders of [`PLANNER_TEMPLATE`].
pub open spec fn planner_names() -> Seq<Seq<char>> {
    seq!["goal"@, "repo_summary"@]
}

pub proof fn planner_renders()
    ensures
        render::only_holes(PLANNER_TEMPLATE@, planner_names()),
{
    reveal(render::only_holes);
    let t = PLANNER_TEMPLATE@;
    let names = planner_names();
    reveal_strlit("You are the planner. Break the goal below into phases that an implementer can take one at a time.\n\
    \n\
    # Format\n\
    - Begin with a YAML frontmatter between `---` lines that holds `current_phase: \"01\"`.\n\
    - Give each phase a heading `# Phase NN: Title`, with NN counting up from 01.\n\
    - Under each heading state the scope, the deliverables and the acceptance criteria.\n\
    - Keep each phase small enough to be reviewed in one sitting.\n\
    \n\
    Output ONLY the file contents.\n\
    \n\
    # Goal\n\
    {goal}\n\
    \n\
    # Repository\n\
    {repo_summary}\n\
    ");
    reveal_strlit("goal");
    reveal_strlit("repo_summary");
    assert forall|i: int| 0 <= i < t.len() && #[trigger] t[i] == '{' implies exists|k: int|
        0 <= k < names.len() && render::hole_at(t, #[trigger] names[k], i) by {
        assert(render::hole_at(t, names[0], i)
            || render::hole_at(t, names[1], i));
    }
    assert forall|i: int| 0 <= i < t.len() && #[trigger] t[i] == '}' implies exists|k: int|
        0 <= k < names.len() && render::hole_at(t, #[trigger] names[k], i - 1 - names[k].len()) by {
        assert(render::hole_at(t, names[0], i - 1 - names[0].len())
            || render::hole_at(t, names[1], i - 1 - names[1].len()));
    }
}

/// What the questioner is told.
pub const QUESTIONER_TEMPLATE: &'static str = "You are preparing a plan and may interview its author first. Ask what you need to know before you plan the goal below.\n\
    \n\
    # Format\n\
    - Write a numbered list of design questions, one line each.\n\
    - Ask at most {max_questions} questions.\n\
    - Leave out anything that the repository already answers.\n\
    \n\
    # Goal\n\
    {goal}\n\
    \n\
    # Repository\n\
    {repo_summary}\n\
    ";

/// The placeholders of [`QUESTIONER_TEMPLATE`].
pub open spec fn questioner_names() -> Seq<Seq<char>> {
    seq!["goal"@, "repo_summary"@, "max_questions"@]
}

pub proof fn questioner_renders()
    ensures
        render::only_holes(QUESTIONER_TEMPLATE@, questioner_names()),
{
    reveal(render::only_holes);
    let t = QUESTIONER_TEMPLATE@;
    let names = questioner_names();
    reveal_strlit("You are preparing a plan and may interview its author first. Ask what you need to know before you plan the goal below.\n\
    \n\
    # Format\n\
    - Write a numbered list of design questions, one line each.\n\
    - Ask at most {max_questions} questions.\n\
    - Leave out anything that the repository already answers.\n\
    \n\
    # Goal\n\
    {goal}\n\
    \n\
    # Repository\n\
    {repo_summary}\n\
    ");
    reveal_strlit("goal");
    reveal_strlit("repo_summary");
    reveal_strlit("max_questions");
    assert forall|i: int| 0 <= i < t.len() && #[trigger] t[i] == '{' implies exists|k: int|
        0 <= k < names.len() && render::hole_at(t, #[trigger] names[k], i) by {
        assert(render::hole_at(t, names[0], i)
            || render::hole_at(t, names[1], i)
            || render::hole_at(t, names[2], i));
    }
    assert forall|i: int| 0 <= i < t.len() && #[trigger] t[i] == '}' implies exists|k: int|
        0 <= k < names.len() && render::hole_at(t, #[trigger] names[k], i - 1 - names[k].len()) by {
        assert(render::hole_at(t, names[0], i - 1 - names[0].len())
            || render::hole_at(t, names[1], i - 1 - names[1].len())
            || render::hole_at(t, names[2], i - 1 - names[2].len()));
    }
}

} // verus!
