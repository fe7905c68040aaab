//! Grind orchestrator: pick a prompt, dispatch the agent, capture the
//! summary, commit, repeat — sequentially or across parallel worktrees.
//!
//! [`GrindRunner`] wires together discovered prompts, a [`GrindPlan`], a
//! [`Scheduler`], and the budgets. It drives the loop until the scheduler is
//! exhausted, the run is drained (one Ctrl-C), or the run is aborted (second
//! Ctrl-C), a budget is used up, or too many sessions failed in a row.
//!
//! Each prompt declares whether it is `parallel_safe`; the plan declares its
//! `max_parallel` ceiling. A gate of `max_parallel` permits guards dispatch:
//!
//! - A `parallel_safe: true` prompt grabs one permit, runs in its own worktree
//!   off `<run-root>/worktrees/session-NNNN/`, and fast-forwards the run branch
//!   to its session tip on completion.
//! - A `parallel_safe: false` prompt grabs *all* `max_parallel` permits,
//!   effectively serializing it against any in-flight parallel sessions.
//!   It runs in the main workspace.
//!
//! Waiting, starting sessions and joining them is the caller's: the runner says
//! what is due and takes in what came of it.

use vstd::prelude::*;
use vstd::string::StringExecFns;

use super::budget;
use super::budget::{BudgetCheck, BudgetSnapshot, BudgetTracker};
use super::events::{BudgetWarningKind, GrindEvent, GrindEventModel, GrindStopReason};
use super::events;
use super::plan::{GrindPlan, PlanBudgets, PlanPromptRef};
use super::prompt::{PromptDoc, PromptModel};
use super::run_dir::{SessionRecord, SessionStatus};
use super::scheduler;
use super::scheduler::{Scheduler, SchedulerState};
use super::state;
use super::state::{RunState, RunStatus};
use crate::money::Usd;
use crate::table::Table;
use crate::text;
use crate::time;
use crate::time::Timestamp;

verus! {

// ---------------------------------------------------------------------------
// The user prompt
// ---------------------------------------------------------------------------

/// Raw markdown standing-instruction block prepended to every grind prompt, so
/// users do not have to author it themselves and so the markers can be located,
/// updated, or stripped later without parsing the whole prompt body.
pub const STANDING_INSTRUCTION_TEMPLATE: &'static str = "<!-- pitboss:standing-instruction:start -->
You are running one session of a pitboss grind run (run id: `$PITBOSS_RUN_ID`).

- Before you finish, write a one-paragraph summary of what you did to the file
  named by `$PITBOSS_SUMMARY_FILE`.
- Notes that later sessions of this run should see go into the file named by
  `$PITBOSS_SCRATCHPAD`. Keep it short and keep it current.
- Do not edit anything else under `.pitboss/`, and do not commit: pitboss commits
  your changes when the session ends.
<!-- pitboss:standing-instruction:end -->
";

/// Marker tag that opens the auto-injected sessions.md tail in the user prompt
/// the agent receives. Stable so a downstream parser (or the agent itself) can
/// locate or strip it.
pub const SESSION_LOG_OPEN: &'static str = "<!-- pitboss:session-log -->";

/// Marker tag that closes the sessions.md tail.
pub const SESSION_LOG_CLOSE: &'static str = "<!-- /pitboss:session-log -->";

/// Marker tag that opens the scratchpad snapshot.
pub const SCRATCHPAD_OPEN: &'static str = "<!-- pitboss:scratchpad -->";

/// Marker tag that closes the scratchpad snapshot.
pub const SCRATCHPAD_CLOSE: &'static str = "<!-- /pitboss:scratchpad -->";

/// Number of trailing `sessions.md` lines auto-injected as context. Bounded so
/// long-running grinds don't quietly consume the agent's whole context window
/// with backlog.
pub const SESSION_LOG_TAIL_LINES: usize = 50;

/// Standing-instruction text rendered into the agent's prompt body. Stable so
/// callers (and tests) can grep for it.
pub fn standing_instruction_block() -> (r: &'static str)
    ensures
        r@ == STANDING_INSTRUCTION_TEMPLATE@,
{
    STANDING_INSTRUCTION_TEMPLATE
}

/// The lines between two markers: `body` without trailing line breaks, or
/// `fallback` where it is blank.
pub open spec fn marked_block(
    open: Seq<char>,
    body: Seq<char>,
    fallback: Seq<char>,
    close: Seq<char>,
) -> Seq<char> {
    open + "\n"@ + (if text::trim(body).len() == 0 {
        fallback
    } else {
        text::trim_end_char(body, '\n')
    }) + "\n"@ + close + "\n\n"@
}

fn push_block(out: &mut String, open: &str, body: &str, fallback: &str, close: &str)
    ensures
        final(out)@ == old(out)@ + marked_block(open@, body@, fallback@, close@),
{
    let mut block = text::owned(open);
    block.append("\n");
    if text::trimmed(body).as_str().is_empty() {
        block.append(fallback);
    } else {
        block.append(text::without_trailing(body, '\n').as_str());
    }
    block.append("\n");
    block.append(close);
    block.append("\n\n");
    out.append(block.as_str());
}

/// The full user prompt of a session.
pub open spec fn user_prompt(
    standing_instruction: Seq<char>,
    session_log: Seq<char>,
    scratchpad: Seq<char>,
    prompt_body: Seq<char>,
) -> Seq<char> {
    text::closed_line(
        text::trim_end_char(standing_instruction, '\n') + "\n\n"@ + marked_block(
            SESSION_LOG_OPEN@,
            session_log,
            "(no prior sessions)"@,
            SESSION_LOG_CLOSE@,
        ) + marked_block(
            SCRATCHPAD_OPEN@,
            scratchpad,
            "(scratchpad is empty)"@,
            SCRATCHPAD_CLOSE@,
        ) + text::trim_start_char(prompt_body, '\n'),
    )
}

/// A prompt starts with the standing instruction and ends a line. The session log
/// and the scratchpad stand between their own markers, a blank one as such, and the
/// body of the prompt comes behind the scratchpad.
pub proof fn prompts_hold_their_blocks(
    instruction: Seq<char>,
    log: Seq<char>,
    pad: Seq<char>,
    body: Seq<char>,
)
    ensures
        user_prompt(instruction, log, pad, body).len() > 0,
        user_prompt(instruction, log, pad, body).last() == '\n',
        instruction.len() > 0 && instruction.last() != '\n' ==> instruction.is_prefix_of(
            user_prompt(instruction, log, pad, body),
        ),
        text::trim(log).len() > 0 && log.last() != '\n' ==> text::contains(
            user_prompt(instruction, log, pad, body),
            "<!-- pitboss:session-log -->"@ + "\n"@ + log + "\n"@
                + "<!-- /pitboss:session-log -->"@,
        ),
        text::trim(log).len() == 0 ==> text::contains(
            user_prompt(instruction, log, pad, body),
            "<!-- pitboss:session-log -->"@ + "\n"@ + "(no prior sessions)"@ + "\n"@
                + "<!-- /pitboss:session-log -->"@,
        ),
        text::trim(pad).len() > 0 && pad.last() != '\n' ==> text::contains(
            user_prompt(instruction, log, pad, body),
            "<!-- pitboss:scratchpad -->"@ + "\n"@ + pad + "\n"@
                + "<!-- /pitboss:scratchpad -->"@,
        ),
        text::trim(pad).len() == 0 ==> text::contains(
            user_prompt(instruction, log, pad, body),
            "<!-- pitboss:scratchpad -->"@ + "\n"@ + "(scratchpad is empty)"@ + "\n"@
                + "<!-- /pitboss:scratchpad -->"@,
        ),
        body.len() > 0 && body[0] != '\n' ==> text::contains(
            user_prompt(instruction, log, pad, body),
            "<!-- /pitboss:scratchpad -->"@ + "\n\n"@ + body,
        ),
{
    let none = Seq::<char>::empty();
    let whole = user_prompt(instruction, log, pad, body);
    let head = text::trim_end_char(instruction, '\n') + "\n\n"@;
    let logs = marked_block(
        SESSION_LOG_OPEN@,
        log,
        "(no prior sessions)"@,
        SESSION_LOG_CLOSE@,
    );
    let pads = marked_block(SCRATCHPAD_OPEN@, pad, "(scratchpad is empty)"@, SCRATCHPAD_CLOSE@);
    let end = text::trim_start_char(body, '\n');
    let inner = head + logs + pads + end;
    reveal_strlit("\n\n");
    let close = if inner.last() == '\n' {
        none
    } else {
        seq!['\n']
    };
    assert(whole =~= inner + close);
    let shown_log = if text::trim(log).len() == 0 {
        "(no prior sessions)"@
    } else {
        text::trim_end_char(log, '\n')
    };
    let shown_pad = if text::trim(pad).len() == 0 {
        "(scratchpad is empty)"@
    } else {
        text::trim_end_char(pad, '\n')
    };
    let log_part = SESSION_LOG_OPEN@ + "\n"@ + shown_log + "\n"@ + SESSION_LOG_CLOSE@;
    let pad_part = SCRATCHPAD_OPEN@ + "\n"@ + shown_pad + "\n"@ + SCRATCHPAD_CLOSE@;
    text::parts_are_held(none, log_part, "\n\n"@, logs);
    text::parts_are_held(none, pad_part, "\n\n"@, pads);
    text::held_in_a_part(head, logs, pads + end + close, whole, log_part);
    text::held_in_a_part(head + logs, pads, end + close, whole, pad_part);
    let pad_start = SCRATCHPAD_OPEN@ + "\n"@ + shown_pad + "\n"@;
    text::parts_are_held(
        head + logs + pad_start,
        SCRATCHPAD_CLOSE@ + "\n\n"@ + end,
        close,
        whole,
    );
}

/// Compose the full user-prompt body the agent sees: standing instruction,
/// session-log tail, scratchpad snapshot, and the user-authored prompt body.
/// Each block is fenced with stable markers so a downstream tool (or another
/// agent) can locate or strip individual sections without reparsing.
pub fn compose_user_prompt(
    standing_instruction: &str,
    session_log: &str,
    scratchpad: &str,
    prompt_body: &str,
) -> (r: String)
    ensures
        r@ == user_prompt(standing_instruction@, session_log@, scratchpad@, prompt_body@),
{
    let mut out = text::without_trailing(standing_instruction, '\n');
    out.append("\n\n");
    push_block(
        &mut out,
        SESSION_LOG_OPEN,
        session_log,
        "(no prior sessions)",
        SESSION_LOG_CLOSE,
    );
    push_block(
        &mut out,
        SCRATCHPAD_OPEN,
        scratchpad,
        "(scratchpad is empty)",
        SCRATCHPAD_CLOSE,
    );
    out.append(text::without_leading(prompt_body, '\n').as_str());
    if !text::ends_line(out.as_str()) {
        out.push('\n');
    }
    out
}

/// The last `n` lines of `s`, each closed by a line break.
pub open spec fn tail_text(s: Seq<char>, n: nat) -> Seq<char> {
    let all = text::lines(s);
    let kept = if all.len() > n {
        all.skip(all.len() - n)
    } else {
        all
    };
    let joined = text::join(kept, "\n"@);
    if joined.len() == 0 {
        joined
    } else {
        joined + "\n"@
    }
}

/// The tail is made of the last lines in their order: none of nothing, the last
/// line alone of one, and with one line more that line stands in front. Past the
/// number of lines nothing is left to add.
pub proof fn the_tail_grows_line_by_line(s: Seq<char>, n: nat)
    ensures
        tail_text(s, 0).len() == 0,
        text::lines(s).len() > 0 && text::lines(s).last().len() > 0 ==> tail_text(s, 1)
            == text::lines(s).last() + "\n"@,
        0 < n < text::lines(s).len() && tail_text(s, n).len() > 0 ==> tail_text(s, n + 1)
            == text::lines(s)[text::lines(s).len() - n - 1] + "\n"@ + tail_text(s, n),
        n >= text::lines(s).len() ==> tail_text(s, n) == tail_text(s, text::lines(s).len()),
{
    let all = text::lines(s);
    reveal_strlit("\n");
    assert(all.skip(all.len() as int).len() == 0);
    if all.len() > 0 {
        assert(all.skip(all.len() - 1) =~= seq![all.last()]);
        if all.len() == 1 {
            assert(all =~= seq![all.last()]);
        }
    }
    if 0 < n < all.len() && tail_text(s, n).len() > 0 {
        let kept = all.skip(all.len() - n);
        let line = all[all.len() - n - 1];
        let more = if all.len() > n + 1 {
            all.skip(all.len() - (n + 1))
        } else {
            all
        };
        assert(more =~= seq![line] + kept);
        text::joins_put_the_separator_between(seq![line], kept, "\n"@);
        assert(tail_text(s, n + 1) =~= line + "\n"@ + tail_text(s, n));
    }
}

/// The last `n` lines of `s`.
pub fn tail_lines(s: &str, n: usize) -> (r: String)
    ensures
        r@ == tail_text(s@, n as nat),
{
    let all = text::lines_of(s);
    let ghost lines = text::lines(s@);
    let from: usize = if all.len() > n {
        all.len() - n
    } else {
        0
    };
    let mut kept: Vec<String> = Vec::new();
    for i in from..all.len()
        invariant
            from <= i <= all@.len(),
            lines == text::views(all@),
            text::views(kept@) == lines.subrange(from as int, i as int),
    {
        let ghost before = text::views(kept@);
        kept.push(all[i].clone());
        proof {
            assert(text::views(kept@) =~= before.push(lines[i as int]));
            assert(lines.subrange(from as int, i + 1) =~= lines.subrange(
                from as int,
                i as int,
            ).push(lines[i as int]));
        }
    }
    assert(lines.subrange(from as int, lines.len() as int) =~= if lines.len() > n {
        lines.skip(lines.len() - n)
    } else {
        lines
    });
    let mut out = text::joined(&kept, "\n");
    if !out.as_str().is_empty() {
        out.append("\n");
    }
    out
}

/// The session-log tail that is injected into a prompt. `read` is what reading
/// `sessions.md` gave: its text, `None` where there is no such file, or the
/// error's text.
pub fn session_log_tail(read: Result<Option<String>, String>) -> (r: String)
    ensures
        r@ == match read {
            Ok(Some(text)) => tail_text(text@, SESSION_LOG_TAIL_LINES as nat),
            Ok(None) => Seq::empty(),
            Err(e) => "(failed to read sessions.md: "@ + e@ + ")"@,
        },
{
    match read {
        Ok(Some(text)) => tail_lines(text.as_str(), SESSION_LOG_TAIL_LINES),
        Ok(None) => String::new(),
        Err(e) => {
            let mut out = text::owned("(failed to read sessions.md: ");
            out.append(e.as_str());
            out.append(")");
            out
        },
    }
}

/// The scratchpad snapshot that is injected into a prompt. `read` is what
/// reading the scratchpad gave: its text, or the error's text.
pub fn scratchpad_seed(read: Result<String, String>) -> (r: String)
    ensures
        r@ == match read {
            Ok(text) => text@,
            Err(e) => "(failed to read scratchpad: "@ + e@ + ")"@,
        },
{
    match read {
        Ok(text) => text,
        Err(e) => {
            let mut out = text::owned("(failed to read scratchpad: ");
            out.append(e.as_str());
            out.append(")");
            out
        },
    }
}

/// Format the per-run branch name. Stable so the worktree branches of its
/// sessions derive their names from the same prefix.
pub fn run_branch_name(run_id: &str) -> (r: String)
    ensures
        r@ == "pitboss/grind/"@ + run_id@,
{
    let mut out = text::owned("pitboss/grind/");
    out.append(run_id);
    out
}

// ---------------------------------------------------------------------------
// Shutdown
// ---------------------------------------------------------------------------

/// Two-stage shutdown signal.
///
/// Draining starts on the first Ctrl-C: the runner finishes in-flight sessions
/// cleanly, then exits. Aborting starts on the second Ctrl-C (or any
/// caller-driven cancel): the in-flight agents are cancelled and their
/// sessions are recorded as `Aborted`.
#[derive(Debug, PartialEq, Eq)]
pub struct GrindShutdown {
    draining: bool,
    aborted: bool,
}

impl GrindShutdown {
    #[verifier::type_invariant]
    spec fn abort_drains(self) -> bool {
        self.aborted ==> self.draining
    }

    /// The drain signal has fired.
    pub closed spec fn drains(self) -> bool {
        self.draining
    }

    /// The abort signal has fired.
    pub closed spec fn aborts(self) -> bool {
        self.aborted
    }

    /// Build a shutdown signal with both stages cleared.
    pub fn new() -> (r: Self)
        ensures
            !r.drains(),
            !r.aborts(),
    {
        GrindShutdown { draining: false, aborted: false }
    }

    /// Has the drain signal fired? An aborted run drains too.
    pub fn is_draining(&self) -> (r: bool)
        ensures
            r == self.drains(),
            self.aborts() ==> r,
    {
        proof {
            use_type_invariant(self);
        }
        self.draining
    }

    /// Has the abort signal fired?
    pub fn is_aborted(&self) -> (r: bool)
        ensures
            r == self.aborts(),
    {
        self.aborted
    }

    /// Trip the drain signal. Idempotent.
    pub fn drain(&mut self)
        ensures
            final(self).drains(),
            final(self).aborts() == old(self).aborts(),
    {
        self.draining = true;
    }

    /// Trip the abort signal. Idempotent. Implicitly trips drain too so the
    /// outer loop exits regardless of which path saw the abort first.
    pub fn abort(&mut self)
        ensures
            final(self).drains(),
            final(self).aborts(),
    {
        self.draining = true;
        self.aborted = true;
    }
}

// ---------------------------------------------------------------------------
// Budget warnings
// ---------------------------------------------------------------------------

/// Per-budget bookkeeping so the runner emits exactly one warning per kind.
#[derive(Debug, Clone, Copy, PartialEq, Eq, Structural)]
pub struct BudgetWarnFlags {
    pub iterations: bool,
    pub tokens: bool,
    pub cost: bool,
    pub until: bool,
}

/// At least 80% of `cap`, which is positive, is used.
pub open spec fn mostly_used(used: int, cap: int) -> bool {
    cap > 0 && 5 * used >= 4 * cap
}

/// The iterations warning is due.
pub open spec fn iterations_due(b: PlanBudgets, s: BudgetSnapshot) -> bool {
    b.max_iterations matches Some(cap) && mostly_used(s.iterations as int, cap as int)
}

/// The tokens warning is due.
pub open spec fn tokens_due(b: PlanBudgets, s: BudgetSnapshot) -> bool {
    b.max_tokens matches Some(cap) && mostly_used(budget::tokens_of(s) as int, cap as int)
}

/// The cost warning is due.
pub open spec fn cost_due(b: PlanBudgets, s: BudgetSnapshot) -> bool {
    b.max_cost_usd matches Some(cap) && mostly_used(s.cost_usd.pico as int, cap.pico as int)
}

/// The cutoff warning is due.
pub open spec fn until_due(b: PlanBudgets, started_at: Timestamp, now: Timestamp) -> bool {
    b.until matches Some(until) && mostly_used(
        time::whole_seconds_between(started_at, now),
        time::whole_seconds_between(started_at, until),
    )
}

/// The list that holds `kind` if `due`.
pub open spec fn if_due(due: bool, kind: BudgetWarningKind) -> Seq<BudgetWarningKind> {
    if due {
        seq![kind]
    } else {
        Seq::empty()
    }
}

/// The warnings to give: one for each budget that is mostly used and was not
/// warned of before.
pub open spec fn warnings(
    b: PlanBudgets,
    s: BudgetSnapshot,
    started_at: Timestamp,
    now: Timestamp,
    f: BudgetWarnFlags,
) -> Seq<BudgetWarningKind> {
    if_due(
        !f.iterations && iterations_due(b, s),
        BudgetWarningKind::Iterations { used: s.iterations, cap: b.max_iterations->0 },
    ) + if_due(
        !f.tokens && tokens_due(b, s),
        BudgetWarningKind::Tokens { used: budget::tokens_of(s), cap: b.max_tokens->0 },
    ) + if_due(
        !f.cost && cost_due(b, s),
        BudgetWarningKind::Cost { used: s.cost_usd, cap: b.max_cost_usd->0 },
    ) + if_due(
        !f.until && until_due(b, started_at, now),
        BudgetWarningKind::Until {
            elapsed_secs: time::whole_seconds_between(started_at, now) as u64,
            window_secs: time::whole_seconds_between(started_at, b.until->0) as u64,
        },
    )
}

/// The budgets warned of once those warnings are given.
pub open spec fn warned(
    b: PlanBudgets,
    s: BudgetSnapshot,
    started_at: Timestamp,
    now: Timestamp,
    f: BudgetWarnFlags,
) -> BudgetWarnFlags {
    BudgetWarnFlags {
        iterations: f.iterations || iterations_due(b, s),
        tokens: f.tokens || tokens_due(b, s),
        cost: f.cost || cost_due(b, s),
        until: f.until || until_due(b, started_at, now),
    }
}

/// No kind of warning is given twice in a run: once the warnings of one moment
/// are given, the same moment calls for none, and no later moment calls for one
/// of a kind already given.
pub proof fn warned_once(
    b: PlanBudgets,
    s: BudgetSnapshot,
    started_at: Timestamp,
    now: Timestamp,
    f: BudgetWarnFlags,
    later_s: BudgetSnapshot,
    later: Timestamp,
)
    ensures
        ({
            let g = warned(b, s, started_at, now, f);
            let first = warnings(b, s, started_at, now, f);
            let second = warnings(b, later_s, started_at, later, g);
            &&& warnings(b, s, started_at, now, g).len() == 0
            &&& forall|i: int, j: int|
                0 <= i < first.len() && 0 <= j < second.len() ==> !same_kind(
                    #[trigger] first[i],
                    #[trigger] second[j],
                )
        }),
{
}

/// A budget is warned of exactly once four fifths of it are used, be it sessions,
/// input and output tokens together, money, or the time from the start to the
/// cutoff, unless it was warned of before. A budget that is not set, or is zero,
/// is never warned of. The warning carries what was used and the cap, and every
/// budget that is warned of is marked.
pub proof fn warnings_come_at_four_fifths(
    b: PlanBudgets,
    s: BudgetSnapshot,
    started_at: Timestamp,
    now: Timestamp,
    f: BudgetWarnFlags,
)
    ensures
        ({
            let w = warnings(b, s, started_at, now, f);
            let g = warned(b, s, started_at, now, f);
            let tokens: int = if s.tokens_input + s.tokens_output <= u64::MAX {
                s.tokens_input + s.tokens_output
            } else {
                u64::MAX as int
            };
            let sessions = b.max_iterations matches Some(cap) && cap > 0 && s.iterations * 10
                >= cap * 8;
            let token = b.max_tokens matches Some(cap) && cap > 0 && tokens * 10 >= cap * 8;
            let money = b.max_cost_usd matches Some(cap) && cap.pico > 0 && s.cost_usd.pico * 10
                >= cap.pico * 8;
            let window = time::whole_seconds_between(started_at, b.until->0);
            let elapsed = time::whole_seconds_between(started_at, now);
            let time = b.until is Some && window > 0 && elapsed * 10 >= window * 8;
            &&& g.iterations == (f.iterations || sessions)
            &&& g.tokens == (f.tokens || token)
            &&& g.cost == (f.cost || money)
            &&& g.until == (f.until || time)
            &&& sessions && !f.iterations <==> w.contains(
                BudgetWarningKind::Iterations { used: s.iterations, cap: b.max_iterations->0 },
            )
            &&& token && !f.tokens <==> w.contains(
                BudgetWarningKind::Tokens { used: tokens as u64, cap: b.max_tokens->0 },
            )
            &&& money && !f.cost <==> w.contains(
                BudgetWarningKind::Cost { used: s.cost_usd, cap: b.max_cost_usd->0 },
            )
            &&& time && !f.until <==> w.contains(
                BudgetWarningKind::Until {
                    elapsed_secs: elapsed as u64,
                    window_secs: window as u64,
                },
            )
            &&& w.len() == (if sessions && !f.iterations {
                1int
            } else {
                0int
            }) + (if token && !f.tokens {
                1int
            } else {
                0int
            }) + (if money && !f.cost {
                1int
            } else {
                0int
            }) + (if time && !f.until {
                1int
            } else {
                0int
            })
        }),
{
    let w = warnings(b, s, started_at, now, f);
    let one = if_due(
        !f.iterations && iterations_due(b, s),
        BudgetWarningKind::Iterations { used: s.iterations, cap: b.max_iterations->0 },
    );
    let two = if_due(
        !f.tokens && tokens_due(b, s),
        BudgetWarningKind::Tokens { used: budget::tokens_of(s), cap: b.max_tokens->0 },
    );
    let three = if_due(
        !f.cost && cost_due(b, s),
        BudgetWarningKind::Cost { used: s.cost_usd, cap: b.max_cost_usd->0 },
    );
    let four = if_due(
        !f.until && until_due(b, started_at, now),
        BudgetWarningKind::Until {
            elapsed_secs: time::whole_seconds_between(started_at, now) as u64,
            window_secs: time::whole_seconds_between(started_at, b.until->0) as u64,
        },
    );
    assert(w == one + two + three + four);
    let (a, c, d) = (one.len() as int, (one + two).len() as int, (one + two + three).len() as int);
    if one.len() > 0 {
        assert(w[0] == one[0]);
    }
    if two.len() > 0 {
        assert(w[a] == two[0]);
    }
    if three.len() > 0 {
        assert(w[c] == three[0]);
    }
    if four.len() > 0 {
        assert(w[d] == four[0]);
    }
    assert forall|i: int| 0 <= i < w.len() implies {
        ||| i < a && w[i] == one[i]
        ||| a <= i < c && w[i] == two[i - a]
        ||| c <= i < d && w[i] == three[i - c]
        ||| d <= i && #[trigger] w[i] == four[i - d]
    } by {}
}

/// Two warnings of one kind.
pub open spec fn same_kind(a: BudgetWarningKind, b: BudgetWarningKind) -> bool {
    match (a, b) {
        (BudgetWarningKind::Iterations { .. }, BudgetWarningKind::Iterations { .. }) => true,
        (BudgetWarningKind::Tokens { .. }, BudgetWarningKind::Tokens { .. }) => true,
        (BudgetWarningKind::Cost { .. }, BudgetWarningKind::Cost { .. }) => true,
        (BudgetWarningKind::Until { .. }, BudgetWarningKind::Until { .. }) => true,
        _ => false,
    }
}

fn used_most_u64(used: u64, cap: u64) -> (r: bool)
    ensures
        r == mostly_used(used as int, cap as int),
{
    cap > 0 && used >= cap - cap / 5
}

fn used_most_usd(used: Usd, cap: Usd) -> (r: bool)
    ensures
        r == mostly_used(used.pico as int, cap.pico as int),
{
    cap.pico > 0 && used.pico >= cap.pico - cap.pico / 5
}

/// The warnings to give: one for each configured budget that just crossed 80%.
/// Once a flag is set no warning of its kind is given again.
pub fn emit_budget_warnings(
    budgets: &PlanBudgets,
    spent: BudgetSnapshot,
    started_at: Timestamp,
    now: Timestamp,
    flags: BudgetWarnFlags,
) -> (r: (Vec<BudgetWarningKind>, BudgetWarnFlags))
    ensures
        r.0@ == warnings(*budgets, spent, started_at, now, flags),
        r.1 == warned(*budgets, spent, started_at, now, flags),
{
    let mut out: Vec<BudgetWarningKind> = Vec::new();
    let mut f = flags;
    if let Some(cap) = budgets.max_iterations {
        if used_most_u64(spent.iterations as u64, cap as u64) {
            if !f.iterations {
                out.push(BudgetWarningKind::Iterations { used: spent.iterations, cap });
            }
            f.iterations = true;
        }
    }
    let ghost first = out@;
    assert(first =~= if_due(
        !flags.iterations && iterations_due(*budgets, spent),
        BudgetWarningKind::Iterations { used: spent.iterations, cap: budgets.max_iterations->0 },
    ));
    if let Some(cap) = budgets.max_tokens {
        let used: u64 = spent.tokens_input.saturating_add(spent.tokens_output);
        if used_most_u64(used, cap) {
            if !f.tokens {
                out.push(BudgetWarningKind::Tokens { used, cap });
            }
            f.tokens = true;
        }
    }
    let ghost second = out@;
    assert(second =~= first + if_due(
        !flags.tokens && tokens_due(*budgets, spent),
        BudgetWarningKind::Tokens { used: budget::tokens_of(spent), cap: budgets.max_tokens->0 },
    ));
    if let Some(cap) = budgets.max_cost_usd {
        if used_most_usd(spent.cost_usd, cap) {
            if !f.cost {
                out.push(BudgetWarningKind::Cost { used: spent.cost_usd, cap });
            }
            f.cost = true;
        }
    }
    let ghost third = out@;
    assert(third =~= second + if_due(
        !flags.cost && cost_due(*budgets, spent),
        BudgetWarningKind::Cost { used: spent.cost_usd, cap: budgets.max_cost_usd->0 },
    ));
    if let Some(until) = budgets.until {
        let window_secs: u64 = until.seconds_since(&started_at);
        let elapsed_secs: u64 = now.seconds_since(&started_at);
        if used_most_u64(elapsed_secs, window_secs) {
            if !f.until {
                out.push(BudgetWarningKind::Until { elapsed_secs, window_secs });
            }
            f.until = true;
        }
    }
    assert(out@ =~= third + if_due(
        !flags.until && until_due(*budgets, started_at, now),
        BudgetWarningKind::Until {
            elapsed_secs: time::whole_seconds_between(started_at, now) as u64,
            window_secs: time::whole_seconds_between(started_at, budgets.until->0) as u64,
        },
    ));
    (out, f)
}

// ---------------------------------------------------------------------------
// The run
// ---------------------------------------------------------------------------

/// What a run waits for.
#[derive(Debug, Clone, Copy, PartialEq, Eq, Structural)]
pub enum RunStep {
    /// A look at the shutdown signal and the clock, before a pick.
    Poll,
    /// A look at the shutdown signal, and a try for the permits of the prompt
    /// that was picked.
    Acquire,
    /// The permits, which no session in flight holds.
    Block,
    /// A session in flight, whose permits the picked prompt needs.
    Join,
    /// Starting the session that was picked.
    Start,
    /// A session in flight, before the run ends.
    Drain,
    /// Nothing is left to do.
    Done,
}

/// What came of a step of a run.
#[derive(Debug, PartialEq, Eq)]
pub enum RunEvent {
    /// The shutdown signal and the clock were looked at.
    Polled {
        /// The drain signal has fired.
        draining: bool,
        /// The abort signal has fired.
        aborted: bool,
        /// The time.
        now: Timestamp,
    },
    /// The shutdown signal was looked at and the permits were tried for.
    Tried {
        /// The drain signal has fired.
        draining: bool,
        /// The abort signal has fired.
        aborted: bool,
        /// The permits were free.
        got: bool,
    },
    /// The permits became free.
    Acquired,
    /// The session was started.
    Started,
    /// A session in flight finished, and its record was logged.
    Finished {
        /// Its record.
        record: SessionRecord,
        /// The time.
        now: Timestamp,
    },
}

/// What a run knows from its start.
pub struct RunFacts {
    pub entries: Seq<PlanPromptRef>,
    pub prompts: Map<Seq<char>, PromptDoc>,
    pub budgets: PlanBudgets,
    pub failure_limit: u32,
    pub started_at: Timestamp,
}

/// Where a run stands.
pub struct RunModel {
    /// What it waits for.
    pub at: RunStep,
    /// The scheduler's rotation counter.
    pub rotation: u64,
    /// The scheduler's run counts.
    pub runs: Map<Seq<char>, u32>,
    /// What was spent.
    pub spent: BudgetSnapshot,
    /// The number of the next session.
    pub next_seq: u32,
    /// The highest number of a session that finished.
    pub last_seq: u32,
    /// The sessions in flight.
    pub in_flight: u32,
    /// The prompt that was picked, and not yet started.
    pub pending: Option<PromptModel>,
    /// The sessions that finished, in that order.
    pub sessions: Seq<SessionRecord>,
    /// Why the run ends.
    pub stop: GrindStopReason,
    /// The budgets warned of.
    pub warned: BudgetWarnFlags,
}

/// The prompt that the rotation `rotation` picks.
pub open spec fn pick_model(
    entries: Seq<PlanPromptRef>,
    prompts: Map<Seq<char>, PromptDoc>,
    rotation: u64,
    runs: Map<Seq<char>, u32>,
) -> Option<PromptModel> {
    let o = scheduler::offers(entries, prompts, rotation as nat, runs);
    if o.len() == 0 {
        None
    } else {
        let k = choose|k: int| scheduler::chosen(o, k);
        Some(prompts[o[k].name]@)
    }
}

proof fn pick_is_pick_model(
    entries: Seq<PlanPromptRef>,
    prompts: Map<Seq<char>, PromptDoc>,
    rotation: u64,
    runs: Map<Seq<char>, u32>,
    r: Option<PromptDoc>,
)
    requires
        scheduler::picked(
            scheduler::offers(entries, prompts, rotation as nat, runs),
            prompts,
            r,
        ),
    ensures
        match r {
            Some(doc) => pick_model(entries, prompts, rotation, runs) == Some(doc@),
            None => pick_model(entries, prompts, rotation, runs) is None,
        },
{
    let o = scheduler::offers(entries, prompts, rotation as nat, runs);
    if let Some(doc) = r {
        let a = choose|k: int| #[trigger]
            scheduler::chosen(o, k) && prompts.contains_key(o[k].name) && doc@
                == prompts[o[k].name]@;
        let b = choose|k: int| scheduler::chosen(o, k);
        scheduler::pick_is_unique(o, a, b);
    }
}

/// A session was aborted.
pub open spec fn any_aborted(sessions: Seq<SessionRecord>) -> bool {
    exists|i: int| 0 <= i < sessions.len() && (#[trigger] sessions[i]).status
        == SessionStatus::Aborted
}

/// The reason that the shutdown signal gives.
pub open spec fn shutdown_reason(aborted: bool) -> GrindStopReason {
    if aborted {
        GrindStopReason::Aborted
    } else {
        GrindStopReason::Drained
    }
}

/// The run once it starts to end: the sessions in flight are waited for, and a
/// session among them that was aborted makes a completed run an aborted one.
pub open spec fn run_settled(m: RunModel) -> RunModel {
    if m.in_flight > 0 {
        RunModel { at: RunStep::Drain, pending: None, ..m }
    } else {
        RunModel {
            at: RunStep::Done,
            pending: None,
            stop: if m.stop is Completed && any_aborted(m.sessions) {
                GrindStopReason::Aborted
            } else {
                m.stop
            },
            ..m
        }
    }
}

/// The run that ends for `reason`.
pub open spec fn run_stopped(m: RunModel, reason: GrindStopReason) -> RunModel {
    run_settled(RunModel { stop: reason, ..m })
}

/// The reason, if any, for which no further session may start: a budget that is
/// used up, or too many failures in a row.
pub open spec fn run_blocked(f: RunFacts, spent: BudgetSnapshot, now: Timestamp) -> Option<
    GrindStopReason,
> {
    match budget::budget_check(f.budgets, spent, now) {
        BudgetCheck::Exhausted(reason) => Some(GrindStopReason::BudgetExhausted(reason)),
        BudgetCheck::Within => if budget::streak_trips(f.failure_limit, spent) {
            Some(GrindStopReason::ConsecutiveFailureLimit { limit: f.failure_limit })
        } else {
            None
        },
    }
}

/// The run after the scheduler's next pick.
pub open spec fn run_picked(f: RunFacts, m: RunModel) -> RunModel {
    let rotation = state::next_rotation(m.rotation);
    let turned = RunModel { rotation, ..m };
    match pick_model(f.entries, f.prompts, rotation, m.runs) {
        None => run_stopped(turned, GrindStopReason::Completed),
        Some(doc) => RunModel {
            at: RunStep::Acquire,
            next_seq: (m.next_seq + 1) as u32,
            pending: Some(doc),
            ..turned
        },
    }
}

/// The run after a session finished.
pub open spec fn run_completed(f: RunFacts, m: RunModel, record: SessionRecord, now: Timestamp) ->
    RunModel {
    let spent = budget::recorded(m.spent, record);
    RunModel {
        spent,
        last_seq: if record.seq > m.last_seq {
            record.seq
        } else {
            m.last_seq
        },
        in_flight: if m.in_flight > 0 {
            (m.in_flight - 1) as u32
        } else {
            0
        },
        sessions: m.sessions.push(record),
        warned: warned(f.budgets, spent, f.started_at, now, m.warned),
        ..m
    }
}

/// The run after the event `e`. An event that is not due changes nothing.
pub open spec fn run_next(f: RunFacts, m: RunModel, e: RunEvent) -> RunModel {
    match (m.at, e) {
        (RunStep::Poll, RunEvent::Polled { draining, aborted, now }) => if draining {
            run_stopped(m, shutdown_reason(aborted))
        } else {
            match run_blocked(f, m.spent, now) {
                Some(reason) => run_stopped(m, reason),
                None => run_picked(f, m),
            }
        },
        (RunStep::Acquire, RunEvent::Tried { draining, aborted, got }) => if draining {
            run_stopped(m, shutdown_reason(aborted))
        } else if got {
            RunModel { at: RunStep::Start, ..m }
        } else if m.in_flight == 0 {
            RunModel { at: RunStep::Block, ..m }
        } else {
            RunModel { at: RunStep::Join, ..m }
        },
        (RunStep::Block, RunEvent::Acquired) => RunModel { at: RunStep::Start, ..m },
        (RunStep::Join, RunEvent::Finished { record, now }) => {
            let done = run_completed(f, m, record, now);
            match run_blocked(f, done.spent, now) {
                Some(reason) => run_stopped(done, reason),
                None => RunModel { at: RunStep::Acquire, ..done },
            }
        },
        (RunStep::Start, RunEvent::Started) => match m.pending {
            Some(doc) => RunModel {
                at: RunStep::Poll,
                runs: scheduler::counted(m.runs, doc.name),
                in_flight: if m.in_flight < u32::MAX {
                    (m.in_flight + 1) as u32
                } else {
                    m.in_flight
                },
                pending: None,
                ..m
            },
            None => m,
        },
        (RunStep::Drain, RunEvent::Finished { record, now }) => run_settled(
            run_completed(f, m, record, now),
        ),
        _ => m,
    }
}

/// What subscribers are told of the end of a run.
pub open spec fn end_told(m: RunModel) -> Seq<GrindEventModel> {
    if m.at == RunStep::Done {
        seq![GrindEventModel::RunFinished { stop_reason: m.stop }]
    } else {
        Seq::empty()
    }
}

/// What subscribers are told of a finished session.
pub open spec fn finish_told(f: RunFacts, m: RunModel, record: SessionRecord, now: Timestamp) -> Seq<
    GrindEventModel,
> {
    seq![GrindEventModel::SessionFinished { record: record@ }] + warnings(
        f.budgets,
        budget::recorded(m.spent, record),
        f.started_at,
        now,
        m.warned,
    ).map_values(|kind: BudgetWarningKind| GrindEventModel::BudgetWarning { kind })
}

/// What subscribers are told of a pick.
pub open spec fn pick_told(f: RunFacts, m: RunModel) -> Seq<GrindEventModel> {
    let rotation = state::next_rotation(m.rotation);
    seq![
        GrindEventModel::SchedulerPicked {
            rotation,
            pick: match pick_model(f.entries, f.prompts, rotation, m.runs) {
                Some(doc) => Some(doc.name),
                None => None,
            },
        },
    ]
}

/// What subscribers are told of the event `e`.
pub open spec fn run_tells(f: RunFacts, m: RunModel, e: RunEvent) -> Seq<GrindEventModel> {
    let next = run_next(f, m, e);
    match (m.at, e) {
        (RunStep::Poll, RunEvent::Polled { draining, now, .. }) => if draining || run_blocked(
            f,
            m.spent,
            now,
        ) is Some {
            end_told(next)
        } else {
            pick_told(f, m) + end_told(next)
        },
        (RunStep::Acquire, RunEvent::Tried { .. }) => end_told(next),
        (RunStep::Join, RunEvent::Finished { record, now }) => finish_told(f, m, record, now)
            + end_told(next),
        (RunStep::Drain, RunEvent::Finished { record, now }) => finish_told(f, m, record, now)
            + end_told(next),
        (RunStep::Start, RunEvent::Started) => match m.pending {
            Some(doc) => seq![
                GrindEventModel::SessionStarted {
                    seq: if m.next_seq > 0 {
                        (m.next_seq - 1) as u32
                    } else {
                        0
                    },
                    prompt: doc.name,
                    parallel_safe: doc.parallel_safe,
                },
            ],
            None => Seq::empty(),
        },
        _ => Seq::empty(),
    }
}

/// A session is told as it starts, under the number that was taken for it, with its
/// prompt and whether it may run beside others. Of any other event the end of the run
/// is told last, and only then.
pub proof fn a_started_session_is_told(f: RunFacts, m: RunModel, e: RunEvent)
    ensures
        m.at == RunStep::Start && m.next_seq > 0 && e == RunEvent::Started ==> (m.pending matches Some(
            doc,
        ) ==> run_tells(f, m, e).len() == 1 && run_tells(f, m, e)[0] == (
        GrindEventModel::SessionStarted {
            seq: (m.next_seq - 1) as u32,
            prompt: doc.name,
            parallel_safe: doc.parallel_safe,
        })),
        m.at == RunStep::Start && m.pending is None ==> run_tells(f, m, e).len() == 0,
        m.at == RunStep::Done ==> run_tells(f, m, e).len() == 0,
{
}

/// The start of a run.
pub open spec fn run_start(
    rotation: u64,
    runs: Map<Seq<char>, u32>,
    spent: BudgetSnapshot,
    next_seq: u32,
) -> RunModel {
    RunModel {
        at: RunStep::Poll,
        rotation,
        runs,
        spent,
        next_seq,
        last_seq: if next_seq > 0 {
            (next_seq - 1) as u32
        } else {
            0
        },
        in_flight: 0,
        pending: None,
        sessions: Seq::empty(),
        stop: GrindStopReason::Completed,
        warned: BudgetWarnFlags { iterations: false, tokens: false, cost: false, until: false },
    }
}

/// How a run is marked on disk once it ended for `reason`.
pub open spec fn terminal_status_of(reason: GrindStopReason) -> RunStatus {
    match reason {
        GrindStopReason::Completed => RunStatus::Completed,
        GrindStopReason::Drained => RunStatus::Aborted,
        GrindStopReason::Aborted => RunStatus::Aborted,
        GrindStopReason::BudgetExhausted(_) => RunStatus::Failed,
        GrindStopReason::ConsecutiveFailureLimit { .. } => RunStatus::Failed,
    }
}

/// How a run is marked on disk once it ended for `reason`.
pub fn terminal_status(reason: GrindStopReason) -> (r: RunStatus)
    ensures
        r == terminal_status_of(reason),
{
    match reason {
        GrindStopReason::Completed => RunStatus::Completed,
        GrindStopReason::Drained => RunStatus::Aborted,
        GrindStopReason::Aborted => RunStatus::Aborted,
        GrindStopReason::BudgetExhausted(_) => RunStatus::Failed,
        GrindStopReason::ConsecutiveFailureLimit { .. } => RunStatus::Failed,
    }
}

/// How many sessions may be in flight under the ceiling `max_parallel`: one
/// where it is zero.
pub open spec fn permits_in_all(max_parallel: u32) -> u32 {
    if max_parallel == 0 {
        1
    } else {
        max_parallel
    }
}

/// How many of the permits under `max_parallel` a session takes.
pub open spec fn permits_of(parallel_safe: bool, max_parallel: u32) -> u32 {
    if parallel_safe {
        1
    } else {
        permits_in_all(max_parallel)
    }
}

/// How many of `max_parallel` permits a session takes: a `parallel_safe` one
/// takes one; everything else takes every permit so it can't overlap any
/// concurrent session.
pub fn permits_needed(parallel_safe: bool, max_parallel: u32) -> (r: u32)
    ensures
        r == permits_of(parallel_safe, max_parallel),
{
    if parallel_safe || max_parallel == 0 {
        1
    } else {
        max_parallel
    }
}

/// How many permits sessions hold that are in flight together, `safe` saying of
/// each whether it is `parallel_safe`.
pub open spec fn permits_held(safe: Seq<bool>, max_parallel: u32) -> int
    decreases safe.len(),
{
    if safe.len() == 0 {
        0
    } else {
        permits_held(safe.drop_last(), max_parallel) + permits_of(safe.last(), max_parallel)
    }
}

proof fn each_holds_a_permit(safe: Seq<bool>, max_parallel: u32)
    ensures
        safe.len() <= permits_held(safe, max_parallel),
        forall|i: int|
            0 <= i < safe.len() && !#[trigger] safe[i] ==> safe.len() - 1 + permits_in_all(
                max_parallel,
            ) <= permits_held(safe, max_parallel),
    decreases safe.len(),
{
    if safe.len() > 0 {
        let front = safe.drop_last();
        each_holds_a_permit(front, max_parallel);
        assert forall|i: int| 0 <= i < safe.len() && !#[trigger] safe[i] implies safe.len() - 1
            + permits_in_all(max_parallel) <= permits_held(safe, max_parallel) by {
            if i < front.len() {
                assert(!front[i]);
            }
        }
    }
}

/// Sessions that together hold no more permits than there are keep to the
/// ceiling, and one that is not `parallel_safe` runs alone.
pub proof fn sequential_sessions_run_alone(safe: Seq<bool>, max_parallel: u32)
    requires
        permits_held(safe, max_parallel) <= permits_in_all(max_parallel),
    ensures
        safe.len() <= permits_in_all(max_parallel),
        forall|i: int| 0 <= i < safe.len() && !#[trigger] safe[i] ==> safe.len() == 1,
{
    each_holds_a_permit(safe, max_parallel);
}

/// A run that has ended stays ended, for the reason it ended.
pub proof fn ended_run_stays_ended(f: RunFacts, m: RunModel, e: RunEvent)
    requires
        m.at == RunStep::Done,
    ensures
        run_next(f, m, e) == m,
        run_tells(f, m, e).len() == 0,
{
}

/// No two sessions have the same number: each pick moves on to the next one,
/// nothing else touches the counter, and a session starts under the number that
/// was the next before its pick.
pub proof fn each_pick_gets_a_fresh_number(f: RunFacts, m: RunModel, e: RunEvent)
    requires
        m.next_seq < u32::MAX,
    ensures
        run_next(f, m, e).next_seq == m.next_seq + if m.at == RunStep::Poll && run_next(f, m, e).at
            == RunStep::Acquire {
            1int
        } else {
            0int
        },
        m.at == RunStep::Start && e == RunEvent::Started && m.pending is Some && m.next_seq > 0
            ==> run_tells(f, m, e).len() == 1 && (run_tells(f, m, e)[0] matches
            GrindEventModel::SessionStarted { seq, .. } && seq == m.next_seq - 1),
{
}

/// No session starts once a shutdown was seen, a budget is used up, or too many
/// sessions failed in a row: a pick is made only where none of these holds, and
/// a run that is ending starts nothing more.
pub proof fn nothing_starts_when_blocked(f: RunFacts, m: RunModel, e: RunEvent)
    ensures
        m.at == RunStep::Poll && run_next(f, m, e).at == RunStep::Acquire ==> (e matches
            RunEvent::Polled { draining, now, .. } && !draining && run_blocked(f, m.spent, now)
            is None),
        m.at == RunStep::Drain ==> run_next(f, m, e).at == RunStep::Drain || run_next(f, m, e).at
            == RunStep::Done,
        run_next(f, m, e).at == RunStep::Start && m.at != RunStep::Start ==> m.at
            == RunStep::Acquire || m.at == RunStep::Block,
{
}

/// What a run does before it picks. A shutdown comes first: it ends the run as
/// aborted where the abort signal has fired, and else as drained. Then a budget
/// that is used up ends it for the reason that the budget check gives, and then a
/// streak of failures that is as long as a limit above zero. Ending it picks
/// nothing: the rotation, the counts and the numbers stay, and sessions in flight
/// are waited for. Where nothing ends it, the rotation turns by one.
pub proof fn stops_come_before_picks(
    f: RunFacts,
    m: RunModel,
    draining: bool,
    aborted: bool,
    now: Timestamp,
)
    requires
        m.at == RunStep::Poll,
    ensures
        ({
            let n = run_next(f, m, RunEvent::Polled { draining, aborted, now });
            let check = budget::budget_check(f.budgets, m.spent, now);
            let streak = f.failure_limit > 0 && m.spent.consecutive_failures >= f.failure_limit;
            let stops = draining || check is Exhausted || streak;
            &&& draining && aborted ==> n.stop == GrindStopReason::Aborted
            &&& draining && !aborted ==> n.stop == GrindStopReason::Drained
            &&& !draining ==> (check matches BudgetCheck::Exhausted(reason) ==> n.stop
                == GrindStopReason::BudgetExhausted(reason))
            &&& !draining && check is Within && streak ==> n.stop
                == GrindStopReason::ConsecutiveFailureLimit { limit: f.failure_limit }
            &&& stops ==> n.rotation == m.rotation && n.runs == m.runs && n.next_seq == m.next_seq
                && n.spent == m.spent && n.sessions == m.sessions && n.in_flight == m.in_flight
                && n.pending is None
            &&& stops && m.in_flight > 0 ==> n.at == RunStep::Drain
            &&& stops && m.in_flight == 0 ==> n.at == RunStep::Done
            &&& !stops && m.rotation < u64::MAX ==> n.rotation == m.rotation + 1
        }),
{
}

/// What a pick is. Where no plan entry passes its gates in the new rotation, the
/// run is completed, once no session is in flight any more. Else the candidate
/// that the scheduler prefers over all others is what is picked: it waits for its
/// permits under the number that was the next, and subscribers are told its name
/// and the rotation.
pub proof fn picks_are_the_schedulers(
    f: RunFacts,
    m: RunModel,
    aborted: bool,
    now: Timestamp,
    k: int,
)
    requires
        m.at == RunStep::Poll,
        m.rotation < u64::MAX,
        m.next_seq < u32::MAX,
        budget::budget_check(f.budgets, m.spent, now) is Within,
        f.failure_limit == 0 || m.spent.consecutive_failures < f.failure_limit,
    ensures
        ({
            let e = RunEvent::Polled { draining: false, aborted, now };
            let n = run_next(f, m, e);
            let told = run_tells(f, m, e);
            let o = scheduler::offers(f.entries, f.prompts, (m.rotation + 1) as nat, m.runs);
            &&& o.len() == 0 ==> n.pending is None && n.next_seq == m.next_seq && told.len() > 0
                && told[0] == (GrindEventModel::SchedulerPicked {
                rotation: (m.rotation + 1) as u64,
                pick: None,
            })
            &&& o.len() == 0 && m.in_flight > 0 ==> n.at == RunStep::Drain && n.stop is Completed
            &&& o.len() == 0 && m.in_flight == 0 && !any_aborted(m.sessions) ==> n.at
                == RunStep::Done && n.stop is Completed
            &&& scheduler::chosen(o, k) ==> n.at == RunStep::Acquire && n.pending == Some(
                f.prompts[o[k].name]@,
            ) && n.next_seq == m.next_seq + 1 && n.runs == m.runs && n.in_flight == m.in_flight
                && told == seq![
                GrindEventModel::SchedulerPicked {
                    rotation: (m.rotation + 1) as u64,
                    pick: Some(f.prompts[o[k].name]@.name),
                },
            ]
        }),
{
    let e = RunEvent::Polled { draining: false, aborted, now };
    let o = scheduler::offers(f.entries, f.prompts, (m.rotation + 1) as nat, m.runs);
    if scheduler::chosen(o, k) {
        let c = choose|c: int| scheduler::chosen(o, c);
        scheduler::pick_is_unique(o, c, k);
        let told = GrindEventModel::SchedulerPicked {
            rotation: (m.rotation + 1) as u64,
            pick: Some(f.prompts[o[k].name]@.name),
        };
        assert(run_tells(f, m, e) =~= seq![told]);
    }
}

/// What becomes of a prompt that was picked. A shutdown that is seen before it
/// starts drops it. With its permits it starts; without them it waits for a
/// session in flight to give some back, or, with none in flight, for the permits
/// themselves. It stays the prompt that was picked all the while.
pub proof fn picked_prompts_wait_for_permits(
    f: RunFacts,
    m: RunModel,
    draining: bool,
    aborted: bool,
    got: bool,
)
    ensures
        m.at == RunStep::Acquire ==> {
            let n = run_next(f, m, RunEvent::Tried { draining, aborted, got });
            &&& draining ==> n.pending is None && n.stop == if aborted {
                GrindStopReason::Aborted
            } else {
                GrindStopReason::Drained
            }
            &&& draining ==> n.at == if m.in_flight > 0 {
                RunStep::Drain
            } else {
                RunStep::Done
            }
            &&& !draining ==> n.pending == m.pending && n.stop == m.stop
            &&& !draining && got ==> n.at == RunStep::Start
            &&& !draining && !got && m.in_flight == 0 ==> n.at == RunStep::Block
            &&& !draining && !got && m.in_flight > 0 ==> n.at == RunStep::Join
            &&& n.runs == m.runs && n.next_seq == m.next_seq && n.in_flight == m.in_flight
        },
        m.at == RunStep::Block ==> {
            let n = run_next(f, m, RunEvent::Acquired);
            n.at == RunStep::Start && n.pending == m.pending && n.runs == m.runs
        },
{
}

/// Starting a session counts one run of its own prompt, one session in flight,
/// and goes back to the top of the loop; subscribers are told its prompt and
/// whether others may run beside it.
pub proof fn a_started_session_is_counted(f: RunFacts, m: RunModel, doc: PromptModel, other: Seq<char>)
    requires
        m.at == RunStep::Start,
        m.pending == Some(doc),
        m.in_flight < u32::MAX,
        m.next_seq > 0,
    ensures
        ({
            let n = run_next(f, m, RunEvent::Started);
            &&& n.at == RunStep::Poll && n.pending is None
            &&& n.in_flight == m.in_flight + 1
            &&& scheduler::runs_of(m.runs, doc.name) < u32::MAX ==> scheduler::runs_of(
                n.runs,
                doc.name,
            ) == scheduler::runs_of(m.runs, doc.name) + 1
            &&& other != doc.name ==> scheduler::runs_of(n.runs, other) == scheduler::runs_of(
                m.runs,
                other,
            )
            &&& n.rotation == m.rotation && n.spent == m.spent && n.sessions == m.sessions
            &&& run_tells(f, m, RunEvent::Started) == seq![
                GrindEventModel::SessionStarted {
                    seq: (m.next_seq - 1) as u32,
                    prompt: doc.name,
                    parallel_safe: doc.parallel_safe,
                },
            ]
        }),
{
    let told = GrindEventModel::SessionStarted {
        seq: (m.next_seq - 1) as u32,
        prompt: doc.name,
        parallel_safe: doc.parallel_safe,
    };
    assert(run_tells(f, m, RunEvent::Started) =~= seq![told]);
}

/// A session that finishes is taken in once: its record is the last of the
/// sessions, the counters take it in, one session fewer is in flight, and
/// subscribers are told of it first. Where a prompt waited for its permits, a
/// budget that this session used up, or a streak that it made too long, ends the
/// run and drops the prompt; else the prompt tries for its permits again. Where
/// the run is ending, it is done once no session is in flight.
pub proof fn a_finished_session_is_taken_in(
    f: RunFacts,
    m: RunModel,
    record: SessionRecord,
    now: Timestamp,
)
    requires
        m.at == RunStep::Join || m.at == RunStep::Drain,
        m.in_flight > 0,
    ensures
        ({
            let e = RunEvent::Finished { record, now };
            let n = run_next(f, m, e);
            let check = budget::budget_check(f.budgets, n.spent, now);
            let streak = f.failure_limit > 0 && n.spent.consecutive_failures >= f.failure_limit;
            &&& n.sessions == m.sessions.push(record)
            &&& n.spent == budget::recorded(m.spent, record)
            &&& n.in_flight == m.in_flight - 1
            &&& n.last_seq >= m.last_seq && n.last_seq >= record.seq && (n.last_seq == m.last_seq
                || n.last_seq == record.seq)
            &&& n.runs == m.runs && n.rotation == m.rotation && n.next_seq == m.next_seq
            &&& run_tells(f, m, e).len() > 0 && run_tells(f, m, e)[0]
                == (GrindEventModel::SessionFinished { record: record@ })
            &&& m.at == RunStep::Join && check is Within && !streak ==> n.at == RunStep::Acquire
                && n.pending == m.pending && n.stop == m.stop
            &&& m.at == RunStep::Join && (check is Exhausted || streak) ==> n.pending is None
                && n.at == if m.in_flight > 1 {
                RunStep::Drain
            } else {
                RunStep::Done
            }
            &&& m.at == RunStep::Join ==> (check matches BudgetCheck::Exhausted(reason) ==> n.stop
                == GrindStopReason::BudgetExhausted(reason))
            &&& m.at == RunStep::Join && check is Within && streak ==> n.stop
                == GrindStopReason::ConsecutiveFailureLimit { limit: f.failure_limit }
            &&& m.at == RunStep::Drain && m.in_flight > 1 ==> n.at == RunStep::Drain && n.stop
                == m.stop
            &&& m.at == RunStep::Drain && m.in_flight == 1 ==> n.at == RunStep::Done
            &&& m.at == RunStep::Drain && !(m.stop is Completed) ==> n.stop == m.stop
        }),
{
}

/// A run is completed only if none of its sessions was aborted: with one that
/// was, a run that would be completed is aborted. No other reason is changed.
/// Subscribers are told of the end once, as the last thing, with that reason.
pub proof fn the_end_is_told_with_its_reason(f: RunFacts, m: RunModel, e: RunEvent, i: int)
    requires
        m.at != RunStep::Done,
        run_next(f, m, e).at == RunStep::Done,
    ensures
        ({
            let n = run_next(f, m, e);
            let told = run_tells(f, m, e);
            &&& 0 <= i < n.sessions.len() && n.sessions[i].status == SessionStatus::Aborted ==> !(
            n.stop is Completed)
            &&& m.at == RunStep::Drain && m.stop is Completed && 0 <= i < n.sessions.len()
                && n.sessions[i].status == SessionStatus::Aborted ==> n.stop is Aborted
            &&& m.at == RunStep::Drain && m.stop is Completed && (forall|j: int|
                0 <= j < n.sessions.len() ==> (#[trigger] n.sessions[j]).status
                    != SessionStatus::Aborted) ==> n.stop is Completed
            &&& told.len() > 0 && told.last() == (GrindEventModel::RunFinished {
                stop_reason: n.stop,
            })
        }),
{
}

/// How a run is marked on disk, and whether it can be resumed: one that ran out
/// of prompts is completed and one that a budget or the escape valve ended has
/// failed, and neither is resumed; one that its operator stopped is aborted, and
/// can be.
pub proof fn stopped_runs_can_be_resumed(reason: GrindStopReason)
    ensures
        terminal_status_of(reason) == RunStatus::Completed <==> reason is Completed,
        terminal_status_of(reason) == RunStatus::Aborted <==> reason is Drained
            || reason is Aborted,
        terminal_status_of(reason) == RunStatus::Failed <==> reason is BudgetExhausted
            || reason is ConsecutiveFailureLimit,
        state::resumable(terminal_status_of(reason)) <==> reason is Drained || reason is Aborted,
        state::resumable(RunStatus::Active),
{
}

/// There are as many permits as sessions may run at once, and at least one. A
/// session that is safe beside others takes one, and any other takes all of them.
pub proof fn permits_follow_the_ceiling(max_parallel: u32)
    ensures
        max_parallel > 0 ==> permits_in_all(max_parallel) == max_parallel,
        permits_in_all(0) == 1,
        permits_of(true, max_parallel) == 1,
        permits_of(false, max_parallel) == permits_in_all(max_parallel),
{
}

/// A run that waits for a session has one in flight.
pub open spec fn run_consistent(m: RunModel) -> bool {
    &&& m.at == RunStep::Join || m.at == RunStep::Drain ==> m.in_flight > 0
    &&& m.at == RunStep::Acquire || m.at == RunStep::Block || m.at == RunStep::Join || m.at
        == RunStep::Start ==> m.pending is Some
    &&& m.at == RunStep::Done ==> m.in_flight == 0
}

/// The run after the events `events`.
pub open spec fn run_after(f: RunFacts, m: RunModel, events: Seq<RunEvent>) -> RunModel
    decreases events.len(),
{
    if events.len() == 0 {
        m
    } else {
        run_next(f, run_after(f, m, events.drop_last()), events.last())
    }
}

/// How many sessions the events `events` start.
pub open spec fn sessions_started(f: RunFacts, m: RunModel, events: Seq<RunEvent>) -> nat
    decreases events.len(),
{
    if events.len() == 0 {
        0
    } else {
        let front = events.drop_last();
        sessions_started(f, m, front) + if run_after(f, m, front).at == RunStep::Start
            && events.last() is Started {
            1nat
        } else {
            0nat
        }
    }
}

/// Every session that is started is accounted for, whatever happens: it is in
/// flight or among those that finished; a run that waits for a session has one
/// in flight; and a run ends only once every session it started has finished.
pub proof fn sessions_are_accounted_for(
    f: RunFacts,
    rotation: u64,
    runs: Map<Seq<char>, u32>,
    spent: BudgetSnapshot,
    next_seq: u32,
    events: Seq<RunEvent>,
)
    requires
        events.len() < u32::MAX,
    ensures
        ({
            let start = run_start(rotation, runs, spent, next_seq);
            let m = run_after(f, start, events);
            let n = sessions_started(f, start, events);
            &&& n == m.sessions.len() + m.in_flight
            &&& run_consistent(m)
            &&& m.at == RunStep::Done ==> m.sessions.len() == n
            &&& n <= events.len()
        }),
    decreases events.len(),
{
    if events.len() > 0 {
        sessions_are_accounted_for(f, rotation, runs, spent, next_seq, events.drop_last());
    }
}

/// Outcome of a full run.
#[derive(Debug, PartialEq, Eq)]
pub struct GrindRunOutcome {
    /// The id of the run on disk under `.pitboss/grind/<run-id>/`.
    pub run_id: String,
    /// The git branch the runner committed on.
    pub branch: String,
    /// All session records appended during this run, in completion order.
    pub sessions: Vec<SessionRecord>,
    /// Why the loop exited.
    pub stop_reason: GrindStopReason,
}

/// Grind orchestrator. See module docs.
#[derive(Debug)]
pub struct GrindRunner {
    workspace: String,
    run_id: String,
    branch: String,
    scheduler: Scheduler,
    tracker: BudgetTracker,
    budgets: PlanBudgets,
    started_at: Timestamp,
    at: RunStep,
    next_seq: u32,
    last_seq: u32,
    in_flight: u32,
    pending: Option<PromptDoc>,
    sessions: Vec<SessionRecord>,
    stop: GrindStopReason,
    warned: BudgetWarnFlags,
}

impl View for GrindRunner {
    type V = RunModel;

    closed spec fn view(&self) -> RunModel {
        RunModel {
            at: self.at,
            rotation: self.scheduler.the_rotation(),
            runs: self.scheduler.the_runs(),
            spent: self.tracker.counters(),
            next_seq: self.next_seq,
            last_seq: self.last_seq,
            in_flight: self.in_flight,
            pending: match self.pending {
                Some(doc) => Some(doc@),
                None => None,
            },
            sessions: self.sessions@,
            stop: self.stop,
            warned: self.warned,
        }
    }
}

fn push_all(told: &mut Vec<GrindEvent>, kinds: &Vec<BudgetWarningKind>)
    ensures
        events::event_views(final(told)@) == events::event_views(old(told)@) + kinds@.map_values(
            |kind: BudgetWarningKind| GrindEventModel::BudgetWarning { kind },
        ),
{
    let ghost all = kinds@.map_values(
        |kind: BudgetWarningKind| GrindEventModel::BudgetWarning { kind },
    );
    let ghost base = events::event_views(told@);
    assert(base + all.take(0) =~= base);
    for i in 0..kinds.len()
        invariant
            all == kinds@.map_values(
                |kind: BudgetWarningKind| GrindEventModel::BudgetWarning { kind },
            ),
            events::event_views(told@) == base + all.take(i as int),
    {
        let ghost before = events::event_views(told@);
        told.push(GrindEvent::BudgetWarning { kind: kinds[i] });
        assert(events::event_views(told@) =~= before.push(all[i as int]));
        assert(base + all.take(i + 1) =~= (base + all.take(i as int)).push(all[i as int]));
    }
    assert(all.take(all.len() as int) =~= all);
}

fn has_aborted(sessions: &Vec<SessionRecord>) -> (r: bool)
    ensures
        r == any_aborted(sessions@),
{
    for i in 0..sessions.len()
        invariant
            forall|j: int| 0 <= j < i ==> (#[trigger] sessions@[j]).status
                != SessionStatus::Aborted,
    {
        if sessions[i].status == SessionStatus::Aborted {
            return true;
        }
    }
    false
}

impl GrindRunner {
    /// What the run knows from its start.
    pub closed spec fn facts(self) -> RunFacts {
        RunFacts {
            entries: self.scheduler.the_plan().prompts@,
            prompts: self.scheduler.the_prompts(),
            budgets: self.budgets,
            failure_limit: self.tracker.failure_limit(),
            started_at: self.started_at,
        }
    }

    /// The workspace, run id, branch and plan of the run.
    pub closed spec fn names(self) -> (Seq<char>, Seq<char>, Seq<char>, GrindPlan) {
        (self.workspace@, self.run_id@, self.branch@, self.scheduler.the_plan())
    }

    closed spec fn sound(self) -> bool {
        self.tracker.limits() == self.budgets
    }

    #[verifier::type_invariant]
    spec fn tracks_its_budgets(self) -> bool {
        self.sound()
    }

    /// Build a runner ready to dispatch its first session. Caller has already
    /// created the per-run branch and checked it out.
    ///
    /// `budgets` holds the run-wide caps already resolved from
    /// `config.toml`'s `[grind.budgets]`, the plan's `PlanBudgets`, and any
    /// CLI overrides. Once `consecutive_failure_limit` failed sessions land in
    /// a row the run ends.
    pub fn new(
        workspace: String,
        run_id: String,
        branch: String,
        plan: GrindPlan,
        prompts: Table<PromptDoc>,
        budgets: PlanBudgets,
        consecutive_failure_limit: u32,
        now: Timestamp,
    ) -> (r: Self)
        requires
            plan.prompts@.len() <= scheduler::MAX_ENTRIES,
        ensures
            r.facts() == (RunFacts {
                entries: plan.prompts@,
                prompts: prompts@,
                budgets,
                failure_limit: consecutive_failure_limit,
                started_at: now,
            }),
            r.names() == (workspace@, run_id@, branch@, plan),
            r@ == run_start(
                0,
                Map::empty(),
                BudgetSnapshot {
                    iterations: 0,
                    tokens_input: 0,
                    tokens_output: 0,
                    cost_usd: Usd { pico: 0 },
                    consecutive_failures: 0,
                },
                1,
            ),
    {
        GrindRunner::resume(
            workspace,
            run_id,
            branch,
            plan,
            prompts,
            budgets,
            consecutive_failure_limit,
            SchedulerState::new(),
            BudgetSnapshot::zero(),
            0,
            now,
        )
    }

    /// Build a runner from a previously persisted resume state. The caller
    /// has already validated the prompt set, opened the existing run
    /// directory, and re-checked out the run branch.
    ///
    /// `scheduler_state` is fed straight into [`Scheduler::with_state`] so
    /// the next [`Scheduler::next`] call deterministically returns the same
    /// prompt the original loop would have. `initial_budget` seeds the
    /// in-memory [`BudgetTracker`] so cumulative caps stay accurate across
    /// the resume boundary.
    pub fn resume(
        workspace: String,
        run_id: String,
        branch: String,
        plan: GrindPlan,
        prompts: Table<PromptDoc>,
        budgets: PlanBudgets,
        consecutive_failure_limit: u32,
        scheduler_state: SchedulerState,
        initial_budget: BudgetSnapshot,
        last_session_seq: u32,
        started_at: Timestamp,
    ) -> (r: Self)
        requires
            plan.prompts@.len() <= scheduler::MAX_ENTRIES,
        ensures
            r.facts() == (RunFacts {
                entries: plan.prompts@,
                prompts: prompts@,
                budgets,
                failure_limit: consecutive_failure_limit,
                started_at,
            }),
            r.names() == (workspace@, run_id@, branch@, plan),
            r@ == run_start(
                scheduler_state.rotation,
                scheduler_state.runs_per_prompt@,
                initial_budget,
                if last_session_seq < u32::MAX {
                    (last_session_seq + 1) as u32
                } else {
                    u32::MAX
                },
            ),
    {
        let next_seq: u32 = last_session_seq.saturating_add(1);
        GrindRunner {
            workspace,
            run_id,
            branch,
            scheduler: Scheduler::with_state(plan, prompts, scheduler_state),
            tracker: BudgetTracker::from_snapshot(
                budgets,
                consecutive_failure_limit,
                initial_budget,
            ),
            budgets,
            started_at,
            at: RunStep::Poll,
            next_seq,
            last_seq: next_seq - 1,
            in_flight: 0,
            pending: None,
            sessions: Vec::new(),
            stop: GrindStopReason::Completed,
            warned: BudgetWarnFlags {
                iterations: false,
                tokens: false,
                cost: false,
                until: false,
            },
        }
    }

    /// Workspace this runner is rooted at.
    pub fn workspace(&self) -> (r: &str)
        ensures
            r@ == self.names().0,
    {
        self.workspace.as_str()
    }

    /// Run id under `.pitboss/grind/<run-id>/`.
    pub fn run_id(&self) -> (r: &str)
        ensures
            r@ == self.names().1,
    {
        self.run_id.as_str()
    }

    /// Branch the runner is committing on.
    pub fn branch(&self) -> (r: &str)
        ensures
            r@ == self.names().2,
    {
        self.branch.as_str()
    }

    /// Current plan.
    pub fn plan(&self) -> (r: &GrindPlan)
        ensures
            *r == self.names().3,
    {
        self.scheduler.plan()
    }

    /// Wall-clock instant the run was originally started. Resumed runs
    /// inherit the original start; fresh runs use the construction time.
    pub fn started_at(&self) -> (r: Timestamp)
        ensures
            r == self.facts().started_at,
    {
        self.started_at
    }

    /// Borrow the run-wide budgets (resolved from `config.toml`, plan, and
    /// CLI flags before the runner was built). The TUI footer reads this for
    /// the budget headers.
    pub fn budgets(&self) -> (r: &PlanBudgets)
        ensures
            *r == self.facts().budgets,
    {
        &self.budgets
    }

    /// What is due.
    pub fn step(&self) -> (r: RunStep)
        ensures
            r == self@.at,
    {
        self.at
    }

    /// The number that the next session gets.
    pub fn next_seq(&self) -> (r: u32)
        ensures
            r == self@.next_seq,
    {
        self.next_seq
    }

    /// The sessions in flight.
    pub fn in_flight(&self) -> (r: u32)
        ensures
            r == self@.in_flight,
    {
        self.in_flight
    }

    /// The prompt that was picked, and not yet started.
    pub fn pending(&self) -> (r: Option<&PromptDoc>)
        ensures
            match r {
                Some(doc) => self@.pending == Some(doc@),
                None => self@.pending is None,
            },
    {
        match &self.pending {
            Some(doc) => Some(doc),
            None => None,
        }
    }

    fn settled(self) -> (r: Self)
        ensures
            r.facts() == self.facts(),
            r.names() == self.names(),
            r@ == run_settled(self@),
    {
        proof {
            use_type_invariant(&self);
        }
        let mut m = self;
        m.pending = None;
        if m.in_flight > 0 {
            m.at = RunStep::Drain;
        } else {
            m.at = RunStep::Done;
            if m.stop == GrindStopReason::Completed && has_aborted(&m.sessions) {
                m.stop = GrindStopReason::Aborted;
            }
        }
        m
    }

    fn stopped(self, reason: GrindStopReason) -> (r: Self)
        ensures
            r.facts() == self.facts(),
            r.names() == self.names(),
            r@ == run_stopped(self@, reason),
    {
        proof {
            use_type_invariant(&self);
        }
        let mut m = self;
        m.stop = reason;
        m.settled()
    }

    fn blocked(&self, now: Timestamp) -> (r: Option<GrindStopReason>)
        ensures
            r == run_blocked(self.facts(), self@.spent, now),
    {
        proof {
            use_type_invariant(self);
        }
        match self.tracker.check_with_now(now) {
            BudgetCheck::Exhausted(reason) => Some(GrindStopReason::BudgetExhausted(reason)),
            BudgetCheck::Within => {
                if self.tracker.consecutive_failure_limit_reached() {
                    Some(
                        GrindStopReason::ConsecutiveFailureLimit {
                            limit: self.tracker.failure_limit_value(),
                        },
                    )
                } else {
                    None
                }
            },
        }
    }

    fn picked(self) -> (r: (Self, GrindEvent))
        requires
            self@.next_seq < u32::MAX,
        ensures
            r.0.facts() == self.facts(),
            r.0.names() == self.names(),
            r.0@ == run_picked(self.facts(), self@),
            seq![r.1@] == pick_told(self.facts(), self@),
    {
        let ghost f = self.facts();
        let ghost before = self@;
        let m = self;
        proof {
            use_type_invariant(&m);
        }
        let mut scheduler = m.scheduler;
        let pick = scheduler.next();
        proof {
            pick_is_pick_model(
                f.entries,
                f.prompts,
                scheduler.the_rotation(),
                scheduler.the_runs(),
                pick,
            );
        }
        let told = GrindEvent::SchedulerPicked {
            rotation: scheduler.state().rotation,
            pick: match &pick {
                Some(doc) => Some(doc.meta.name.clone()),
                None => None,
            },
        };
        assert(seq![told@] =~= pick_told(f, before));
        let found = pick.is_some();
        let turned = GrindRunner {
            workspace: m.workspace,
            run_id: m.run_id,
            branch: m.branch,
            scheduler,
            tracker: m.tracker,
            budgets: m.budgets,
            started_at: m.started_at,
            at: if found {
                RunStep::Acquire
            } else {
                m.at
            },
            next_seq: if found {
                m.next_seq + 1
            } else {
                m.next_seq
            },
            last_seq: m.last_seq,
            in_flight: m.in_flight,
            pending: if found {
                pick
            } else {
                m.pending
            },
            sessions: m.sessions,
            stop: m.stop,
            warned: m.warned,
        };
        if found {
            (turned, told)
        } else {
            (turned.stopped(GrindStopReason::Completed), told)
        }
    }

    fn completed(self, record: SessionRecord, now: Timestamp) -> (r: (Self, Vec<GrindEvent>))
        ensures
            r.0.facts() == self.facts(),
            r.0.names() == self.names(),
            r.0@ == run_completed(self.facts(), self@, record, now),
            events::event_views(r.1@) == finish_told(self.facts(), self@, record, now),
    {
        let ghost f = self.facts();
        let ghost before = self@;
        let m = self;
        proof {
            use_type_invariant(&m);
        }
        let mut told: Vec<GrindEvent> = Vec::new();
        told.push(GrindEvent::SessionFinished { record: record.copy() });
        assert(events::event_views(told@) =~= seq![
            GrindEventModel::SessionFinished { record: record@ },
        ]);
        let mut tracker = m.tracker;
        tracker.record_session(&record);
        let (kinds, warned) = emit_budget_warnings(
            &m.budgets,
            tracker.snapshot(),
            m.started_at,
            now,
            m.warned,
        );
        push_all(&mut told, &kinds);
        let last_seq: u32 = if record.seq > m.last_seq {
            record.seq
        } else {
            m.last_seq
        };
        let in_flight: u32 = if m.in_flight > 0 {
            m.in_flight - 1
        } else {
            0
        };
        let mut sessions = m.sessions;
        sessions.push(record);
        let r = GrindRunner {
            workspace: m.workspace,
            run_id: m.run_id,
            branch: m.branch,
            scheduler: m.scheduler,
            tracker,
            budgets: m.budgets,
            started_at: m.started_at,
            at: m.at,
            next_seq: m.next_seq,
            last_seq,
            in_flight,
            pending: m.pending,
            sessions,
            stop: m.stop,
            warned,
        };
        (r, told)
    }

    fn started(self) -> (r: (Self, Vec<GrindEvent>))
        requires
            self@.at == RunStep::Start,
        ensures
            r.0.facts() == self.facts(),
            r.0.names() == self.names(),
            r.0@ == run_next(self.facts(), self@, RunEvent::Started),
            events::event_views(r.1@) == run_tells(self.facts(), self@, RunEvent::Started),
    {
        let ghost f = self.facts();
        let ghost before = self@;
        let m = self;
        proof {
            use_type_invariant(&m);
        }
        let mut told: Vec<GrindEvent> = Vec::new();
        let mut scheduler = m.scheduler;
        let mut at = m.at;
        let mut in_flight: u32 = m.in_flight;
        if let Some(doc) = &m.pending {
            scheduler.record_run(doc.meta.name.as_str());
            told.push(
                GrindEvent::SessionStarted {
                    seq: m.next_seq.saturating_sub(1),
                    prompt: doc.meta.name.clone(),
                    parallel_safe: doc.meta.parallel_safe,
                },
            );
            at = RunStep::Poll;
            in_flight = in_flight.saturating_add(1);
        }
        assert(events::event_views(told@) =~= run_tells(f, before, RunEvent::Started));
        let r = GrindRunner {
            workspace: m.workspace,
            run_id: m.run_id,
            branch: m.branch,
            scheduler,
            tracker: m.tracker,
            budgets: m.budgets,
            started_at: m.started_at,
            at,
            next_seq: m.next_seq,
            last_seq: m.last_seq,
            in_flight,
            pending: None,
            sessions: m.sessions,
            stop: m.stop,
            warned: m.warned,
        };
        (r, told)
    }

    /// What subscribers are told of the end of the run.
    fn end_event(&self, told: &mut Vec<GrindEvent>)
        ensures
            events::event_views(final(told)@) == events::event_views(old(told)@) + end_told(self@),
    {
        let ghost before = events::event_views(told@);
        if self.at == RunStep::Done {
            told.push(GrindEvent::RunFinished { stop_reason: self.stop });
            assert(events::event_views(told@) =~= before.push(
                GrindEventModel::RunFinished { stop_reason: self.stop },
            ));
        }
        assert(events::event_views(told@) =~= before + end_told(self@));
    }

    /// Takes in what came of the step that was due, and gives what to tell
    /// subscribers.
    pub fn advance(self, event: RunEvent) -> (r: (Self, Vec<GrindEvent>))
        requires
            self@.next_seq < u32::MAX,
        ensures
            r.0.facts() == self.facts(),
            r.0.names() == self.names(),
            r.0@ == run_next(self.facts(), self@, event),
            events::event_views(r.1@) == run_tells(self.facts(), self@, event),
    {
        let ghost f = self.facts();
        let ghost before = self@;
        proof {
            use_type_invariant(&self);
        }
        let mut told: Vec<GrindEvent> = Vec::new();
        assert(events::event_views(told@) =~= Seq::empty());
        match (self.at, event) {
            (RunStep::Poll, RunEvent::Polled { draining, aborted, now }) => {
                if draining {
                    let m = self.stopped(
                        if aborted {
                            GrindStopReason::Aborted
                        } else {
                            GrindStopReason::Drained
                        },
                    );
                    m.end_event(&mut told);
                    assert(events::event_views(told@) =~= run_tells(f, before, event));
                    (m, told)
                } else {
                    match self.blocked(now) {
                        Some(reason) => {
                            let m = self.stopped(reason);
                            m.end_event(&mut told);
                            assert(events::event_views(told@) =~= run_tells(f, before, event));
                            (m, told)
                        },
                        None => {
                            let (m, pick) = self.picked();
                            told.push(pick);
                            assert(events::event_views(told@) =~= pick_told(f, before));
                            m.end_event(&mut told);
                            (m, told)
                        },
                    }
                }
            },
            (RunStep::Acquire, RunEvent::Tried { draining, aborted, got }) => {
                let mut m = self;
                if draining {
                    m =
                    m.stopped(
                        if aborted {
                            GrindStopReason::Aborted
                        } else {
                            GrindStopReason::Drained
                        },
                    );
                } else if got {
                    m.at = RunStep::Start;
                } else if m.in_flight == 0 {
                    m.at = RunStep::Block;
                } else {
                    m.at = RunStep::Join;
                }
                m.end_event(&mut told);
                assert(events::event_views(told@) =~= run_tells(f, before, event));
                (m, told)
            },
            (RunStep::Block, RunEvent::Acquired) => {
                let mut m = self;
                m.at = RunStep::Start;
                (m, told)
            },
            (RunStep::Join, RunEvent::Finished { record, now }) => {
                let (done, finished) = self.completed(record, now);
                told = finished;
                let m = match done.blocked(now) {
                    Some(reason) => done.stopped(reason),
                    None => {
                        let mut m = done;
                        proof {
                            use_type_invariant(&m);
                        }
                        m.at = RunStep::Acquire;
                        m
                    },
                };
                m.end_event(&mut told);
                (m, told)
            },
            (RunStep::Start, RunEvent::Started) => self.started(),
            (RunStep::Drain, RunEvent::Finished { record, now }) => {
                let (done, finished) = self.completed(record, now);
                told = finished;
                let m = done.settled();
                m.end_event(&mut told);
                (m, told)
            },
            _ => (self, told),
        }
    }

    /// The state to write to `state.json`.
    pub fn state(&self, status: RunStatus, now: Timestamp) -> (r: RunState)
        ensures
            r.run_id@ == self.names().1,
            r.branch@ == self.names().2,
            r.plan_name@ == self.names().3.name@,
            crate::table::ascending(text::views(r.prompt_names@)),
            forall|n: Seq<char>| #[trigger]
                text::views(r.prompt_names@).contains(n) <==> super::plan::entry_names(
                    self.facts().entries,
                ).contains(n),
            r.scheduler_state.rotation == self@.rotation,
            r.scheduler_state.runs_per_prompt@ == self@.runs,
            r.budget_consumed == self@.spent,
            r.last_session_seq == self@.last_seq,
            r.started_at == self.facts().started_at,
            r.last_updated_at == now,
            r.status == status,
    {
        state::build_state_at(
            self.run_id.clone(),
            self.branch.clone(),
            self.scheduler.plan().name.clone(),
            state::fingerprint(self.scheduler.plan()),
            self.scheduler.state().copy(),
            self.tracker.snapshot(),
            self.last_seq,
            self.started_at,
            status,
            now,
        )
    }

    /// What the run came to.
    pub fn finish(self) -> (r: GrindRunOutcome)
        ensures
            r.run_id@ == self.names().1,
            r.branch@ == self.names().2,
            r.sessions@ == self@.sessions,
            r.stop_reason == self@.stop,
    {
        GrindRunOutcome {
            run_id: self.run_id,
            branch: self.branch,
            sessions: self.sessions,
            stop_reason: self.stop,
        }
    }
}

} // verus!
