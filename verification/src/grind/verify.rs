//! The verify cycle of a `verify: true` session.
//!
//! The project's test suite runs once; while it fails, the fixer agent is
//! dispatched and the suite runs again, up to a configured number of attempts.
//! Running the suite and dispatching the agent are the caller's: [`VerifyLoop`]
//! says what is due and takes in what came of it.

use vstd::prelude::*;
use vstd::string::StringExecFns;

use super::budget;
use super::budget::ModelPricing;
use super::run_dir::SessionStatus;
use crate::agent::{StopModel, StopReason};
use crate::money;
use crate::money::Usd;
use crate::paths;
use crate::state;
use crate::state::{TokenUsage, UsageModel};
use crate::text;

verus! {

/// Fixer-role prompt rendered for `verify: true` sessions whose post-dispatch
/// test run fails. Mirrors the runner's fixer prompt in shape but is scoped to
/// the grind context (no plan, no phase, no `deferred.md`). Placeholders are
/// substituted by [`render_grind_fixer_prompt`].
pub const GRIND_FIXER_PROMPT_TEMPLATE: &'static str = "You are the fixer agent for pitboss grind. \
The implementer agent just finished session prompt {prompt_name} and the project's test \
suite failed. Your job is to fix the code so the suite passes, without expanding scope.

# Hard rules

1. Never edit anything under `.pitboss/`.
2. Stay focused on the failing tests below. Do not refactor passing code.
3. Default assumption: the code is wrong, not the test. If a test asserts the wrong \
invariant, fix it only when you can articulate why in a comment.

# Original prompt body

````
{prompt_body}
````

# Test output

````
{test_output}
````
";

/// The fixer prompt: one placeholder after the other replaced.
pub open spec fn fixer_prompt_text(
    prompt_name: Seq<char>,
    prompt_body: Seq<char>,
    test_output: Seq<char>,
) -> Seq<char> {
    text::replace(
        text::replace(
            text::replace(GRIND_FIXER_PROMPT_TEMPLATE@, "{prompt_name}"@, prompt_name),
            "{prompt_body}"@,
            prompt_body,
        ),
        "{test_output}"@,
        test_output,
    )
}

/// Each value goes into its own hole of the template: the prompt of three values is
/// the prompt that leaves a hole open with the hole filled by its value, and with
/// every hole left open it is the template.
pub proof fn each_value_fills_its_own_hole(
    name: Seq<char>,
    body: Seq<char>,
    output: Seq<char>,
)
    ensures
        fixer_prompt_text(name, body, output) == text::replace(
            fixer_prompt_text(name, body, "{test_output}"@),
            "{test_output}"@,
            output,
        ),
        fixer_prompt_text(name, body, "{test_output}"@) == text::replace(
            fixer_prompt_text(name, "{prompt_body}"@, "{test_output}"@),
            "{prompt_body}"@,
            body,
        ),
        fixer_prompt_text(name, "{prompt_body}"@, "{test_output}"@) == text::replace(
            fixer_prompt_text("{prompt_name}"@, "{prompt_body}"@, "{test_output}"@),
            "{prompt_name}"@,
            name,
        ),
        fixer_prompt_text("{prompt_name}"@, "{prompt_body}"@, "{test_output}"@)
            == GRIND_FIXER_PROMPT_TEMPLATE@,
{
    let template = GRIND_FIXER_PROMPT_TEMPLATE@;
    let named = text::replace(template, "{prompt_name}"@, name);
    text::replacing_with_itself_changes_nothing(template, "{prompt_name}"@);
    text::replacing_with_itself_changes_nothing(template, "{prompt_body}"@);
    text::replacing_with_itself_changes_nothing(template, "{test_output}"@);
    text::replacing_with_itself_changes_nothing(named, "{prompt_body}"@);
    text::replacing_with_itself_changes_nothing(named, "{test_output}"@);
    text::replacing_with_itself_changes_nothing(
        text::replace(named, "{prompt_body}"@, body),
        "{test_output}"@,
    );
}

/// Render the grind fixer prompt for a failing verify cycle.
pub fn render_grind_fixer_prompt(prompt_name: &str, prompt_body: &str, test_output: &str) -> (r:
    String)
    ensures
        r@ == fixer_prompt_text(prompt_name@, prompt_body@, test_output@),
{
    proof {
        reveal_strlit("{prompt_name}");
        reveal_strlit("{prompt_body}");
        reveal_strlit("{test_output}");
    }
    let named = text::replaced(GRIND_FIXER_PROMPT_TEMPLATE, "{prompt_name}", prompt_name);
    let bodied = text::replaced(named.as_str(), "{prompt_body}", prompt_body);
    text::replaced(bodied.as_str(), "{test_output}", test_output)
}

// ---------------------------------------------------------------------------
// Log files
// ---------------------------------------------------------------------------

/// The log of the first test run of a session.
pub fn verify_log(transcript: &str) -> (r: String)
    ensures
        r@ == paths::with_extension_text(transcript@, "verify.log"@),
{
    paths::with_extension(transcript, "verify.log")
}

/// The extension of a log of the fixer attempt `attempt`.
pub open spec fn attempt_extension(role: Seq<char>, attempt: u32) -> Seq<char> {
    role + "-"@ + text::pad_left(text::decimal(attempt as nat), '0', 2) + ".log"@
}

/// The extension of a log carries the role and the number of the attempt, with two
/// digits at least.
pub proof fn extensions_carry_role_and_attempt(role: Seq<char>, attempt: u32)
    ensures
        role.is_prefix_of(attempt_extension(role, attempt)),
        attempt >= 10 ==> attempt_extension(role, attempt) == role + "-"@ + text::decimal(
            attempt as nat,
        ) + ".log"@,
        attempt < 10 ==> attempt_extension(role, attempt) == role + "-"@ + "0"@ + text::decimal(
            attempt as nat,
        ) + ".log"@,
{
    let number = text::decimal(attempt as nat);
    reveal_strlit("0");
    if attempt < 10 {
        assert(text::pad_left(number, '0', 2) =~= "0"@ + number);
        assert(attempt_extension(role, attempt) =~= role + "-"@ + "0"@ + number + ".log"@);
    } else {
        assert(text::decimal(attempt as nat / 10).len() > 0);
    }
}

fn attempt_ext(role: &str, attempt: u32) -> (r: String)
    ensures
        r@ == attempt_extension(role@, attempt),
{
    let mut out = text::owned(role);
    out.append("-");
    out.append(text::padded(text::decimal_u32(attempt).as_str(), '0', 2).as_str());
    out.append(".log");
    out
}

/// The transcript of the fixer attempt `attempt`.
pub fn fixer_log(transcript: &str, attempt: u32) -> (r: String)
    ensures
        r@ == paths::with_extension_text(transcript@, attempt_extension("fix"@, attempt)),
{
    paths::with_extension(transcript, attempt_ext("fix", attempt).as_str())
}

/// The log of the test run after the fixer attempt `attempt`.
pub fn retest_log(transcript: &str, attempt: u32) -> (r: String)
    ensures
        r@ == paths::with_extension_text(transcript@, attempt_extension("verify"@, attempt)),
{
    paths::with_extension(transcript, attempt_ext("verify", attempt).as_str())
}

// ---------------------------------------------------------------------------
// The cycle
// ---------------------------------------------------------------------------

/// What a dispatch costs; nothing where the model has no price.
pub open spec fn priced(price: Option<ModelPricing>, input: u64, output: u64) -> Usd {
    match price {
        Some(p) => Usd { pico: budget::dispatch_cost(p, input, output) as i128 },
        None => Usd { pico: 0 },
    }
}

/// What a dispatch costs; nothing where the model has no price.
pub fn price_of(price: Option<ModelPricing>, input: u64, output: u64) -> (r: Usd)
    ensures
        r == priced(price, input, output),
{
    match price {
        Some(p) => p.cost_usd(input, output),
        None => Usd::zero(),
    }
}

/// Outcome of the verify cycle. Folded into the surrounding session record so
/// the fixer's tokens / cost / final status all show up in the
/// `sessions.jsonl` line for the original prompt.
#[derive(Debug, PartialEq, Eq)]
pub struct VerifyOutcome {
    /// Final session status after any fixer dispatches.
    pub status: SessionStatus,
    /// Replacement summary when the verify cycle ends in failure. `None`
    /// leaves the original session summary intact.
    pub summary_override: Option<String>,
    /// Tokens consumed by every fixer dispatch in the loop, summed across
    /// attempts. Folded onto the implementer's tokens by the caller.
    pub extra_tokens: TokenUsage,
    /// Cost added by every fixer dispatch in the loop.
    pub extra_cost_usd: Usd,
}

/// A [`VerifyOutcome`] as a mathematical value.
pub struct VerifyOutcomeModel {
    pub status: SessionStatus,
    pub summary_override: Option<Seq<char>>,
    pub extra_tokens: UsageModel,
    pub extra_cost_usd: Usd,
}

impl View for VerifyOutcome {
    type V = VerifyOutcomeModel;

    open spec fn view(&self) -> VerifyOutcomeModel {
        VerifyOutcomeModel {
            status: self.status,
            summary_override: text::view_of(self.summary_override),
            extra_tokens: self.extra_tokens@,
            extra_cost_usd: self.extra_cost_usd,
        }
    }
}

/// What the verify cycle waits for.
#[derive(Debug, Clone, Copy, PartialEq, Eq, Structural)]
pub enum VerifyStep {
    /// The first run of the test suite.
    Test,
    /// A look at the abort signal, before a fixer attempt.
    Poll,
    /// A fixer dispatch.
    Fix,
    /// The run of the test suite after a fixer dispatch.
    Retest,
    /// Nothing is left to do.
    Done,
}

/// What came of a step of the verify cycle.
#[derive(Debug, PartialEq, Eq)]
pub enum VerifyEvent {
    /// No test runner was detected.
    NoRunner,
    /// The test suite ran.
    Tested {
        /// Whether it passed.
        passed: bool,
        /// Its short summary.
        summary: String,
    },
    /// Whether the run was aborted.
    Polled(bool),
    /// The fixer dispatch ended.
    Fixed {
        /// Why it ended.
        stop: StopReason,
        /// What it consumed.
        tokens: TokenUsage,
    },
}

/// A [`VerifyEvent`] as a mathematical value.
pub enum VerifyEventModel {
    NoRunner,
    Tested { passed: bool, summary: Seq<char> },
    Polled(bool),
    Fixed { stop: StopModel, tokens: UsageModel },
}

impl View for VerifyEvent {
    type V = VerifyEventModel;

    open spec fn view(&self) -> VerifyEventModel {
        match self {
            VerifyEvent::NoRunner => VerifyEventModel::NoRunner,
            VerifyEvent::Tested { passed, summary } => VerifyEventModel::Tested {
                passed: *passed,
                summary: summary@,
            },
            VerifyEvent::Polled(cancelled) => VerifyEventModel::Polled(*cancelled),
            VerifyEvent::Fixed { stop, tokens } => VerifyEventModel::Fixed {
                stop: stop@,
                tokens: tokens@,
            },
        }
    }
}

/// Where the verify cycle stands.
#[verifier::ext_equal]
pub struct VerifyModel {
    /// What it waits for.
    pub at: VerifyStep,
    /// The current fixer attempt, counted from one; zero before the first.
    pub attempt: u32,
    /// The summary of the latest failed test run.
    pub failure: Seq<char>,
    /// The status of the session so far.
    pub status: SessionStatus,
    /// The summary that replaces the session's.
    pub summary_override: Option<Seq<char>>,
    /// What the fixer dispatches consumed.
    pub tokens: UsageModel,
    /// What they cost.
    pub cost: Usd,
}

/// The start of the cycle.
pub open spec fn verify_start() -> VerifyModel {
    VerifyModel {
        at: VerifyStep::Test,
        attempt: 0,
        failure: Seq::empty(),
        status: SessionStatus::Okay,
        summary_override: None,
        tokens: state::no_usage(),
        cost: Usd { pico: 0 },
    }
}

/// The end of the cycle as `status`.
pub open spec fn verify_end(m: VerifyModel, status: SessionStatus, summary: Option<Seq<char>>) ->
    VerifyModel {
    VerifyModel { at: VerifyStep::Done, status, summary_override: summary, ..m }
}

/// The cycle after a failed test run.
pub open spec fn verify_failed(max_attempts: u32, m: VerifyModel, summary: Seq<char>) -> VerifyModel {
    if m.attempt < max_attempts {
        VerifyModel {
            at: VerifyStep::Poll,
            attempt: (m.attempt + 1) as u32,
            failure: summary,
            ..m
        }
    } else if max_attempts == 0 {
        verify_end(m, SessionStatus::Error, Some("verify failed: "@ + summary))
    } else {
        verify_end(
            m,
            SessionStatus::Error,
            Some(
                "verify failed after "@ + text::decimal(max_attempts as nat) + " fixer attempts: "@
                    + summary,
            ),
        )
    }
}

/// The cycle after a fixer dispatch, its tokens and cost counted in.
pub open spec fn verify_fixed(m: VerifyModel, stop: StopModel) -> VerifyModel {
    match stop {
        StopModel::Completed => VerifyModel { at: VerifyStep::Retest, ..m },
        StopModel::Cancelled => verify_end(
            m,
            SessionStatus::Aborted,
            Some("verify aborted during fixer dispatch"@),
        ),
        StopModel::Timeout => verify_end(
            m,
            SessionStatus::Error,
            Some("fixer attempt "@ + text::decimal(m.attempt as nat) + " timed out"@),
        ),
        StopModel::Error(msg) => verify_end(
            m,
            SessionStatus::Error,
            Some("fixer attempt "@ + text::decimal(m.attempt as nat) + " failed: "@ + msg),
        ),
    }
}

/// The cycle after the event `e`. An event that is not due changes nothing.
pub open spec fn verify_next(
    max_attempts: u32,
    price: Option<ModelPricing>,
    m: VerifyModel,
    e: VerifyEventModel,
) -> VerifyModel {
    match (m.at, e) {
        (VerifyStep::Test, VerifyEventModel::NoRunner) => verify_end(m, SessionStatus::Okay, None),
        (VerifyStep::Test, VerifyEventModel::Tested { passed, summary }) => if passed {
            verify_end(m, SessionStatus::Okay, None)
        } else {
            verify_failed(max_attempts, m, summary)
        },
        (VerifyStep::Poll, VerifyEventModel::Polled(cancelled)) => if cancelled {
            verify_end(
                m,
                SessionStatus::Aborted,
                Some("verify aborted before fixer attempt"@),
            )
        } else {
            VerifyModel { at: VerifyStep::Fix, ..m }
        },
        (VerifyStep::Fix, VerifyEventModel::Fixed { stop, tokens }) => verify_fixed(
            VerifyModel {
                tokens: state::usage_total(m.tokens, tokens),
                cost: money::usd_sum(m.cost, priced(price, tokens.input, tokens.output)),
                ..m
            },
            stop,
        ),
        (VerifyStep::Retest, VerifyEventModel::Tested { passed, summary }) => if passed {
            verify_end(m, SessionStatus::Okay, None)
        } else {
            verify_failed(max_attempts, m, summary)
        },
        _ => m,
    }
}

/// How many events the cycle can still take in at most.
pub open spec fn verify_rank(max_attempts: u32, m: VerifyModel) -> int {
    let left = 3 * (max_attempts - m.attempt);
    match m.at {
        VerifyStep::Test => left + 1,
        VerifyStep::Poll => left + 3,
        VerifyStep::Fix => left + 2,
        VerifyStep::Retest => left + 1,
        VerifyStep::Done => 0,
    }
}

/// The cycle after the events `events`.
pub open spec fn verify_after(
    max_attempts: u32,
    price: Option<ModelPricing>,
    m: VerifyModel,
    events: Seq<VerifyEventModel>,
) -> VerifyModel
    decreases events.len(),
{
    if events.len() == 0 {
        m
    } else {
        verify_next(
            max_attempts,
            price,
            verify_after(max_attempts, price, m, events.drop_last()),
            events.last(),
        )
    }
}

/// Every event either is ignored or brings the cycle closer to its end, so it
/// takes in at most `3 * max_attempts + 1` events.
pub proof fn verify_is_bounded(
    max_attempts: u32,
    price: Option<ModelPricing>,
    m: VerifyModel,
    e: VerifyEventModel,
)
    requires
        m.attempt <= max_attempts,
    ensures
        ({
            let n = verify_next(max_attempts, price, m, e);
            &&& n == m || verify_rank(max_attempts, n) < verify_rank(max_attempts, m)
            &&& n.attempt <= max_attempts
            &&& 0 <= verify_rank(max_attempts, n)
        }),
        verify_rank(max_attempts, verify_start()) == 3 * max_attempts + 1,
{
}

/// How many fixer dispatches the events `events` report.
pub open spec fn fixer_dispatches(
    max_attempts: u32,
    price: Option<ModelPricing>,
    events: Seq<VerifyEventModel>,
) -> nat
    decreases events.len(),
{
    if events.len() == 0 {
        0
    } else {
        let front = events.drop_last();
        let at = verify_after(max_attempts, price, verify_start(), front).at;
        fixer_dispatches(max_attempts, price, front) + if at == VerifyStep::Fix
            && events.last() is Fixed {
            1nat
        } else {
            0nat
        }
    }
}

/// The fixer is dispatched at most `max_attempts` times, whatever comes of its
/// dispatches and of the test runs.
pub proof fn fixer_stays_in_budget(
    max_attempts: u32,
    price: Option<ModelPricing>,
    events: Seq<VerifyEventModel>,
)
    ensures
        fixer_dispatches(max_attempts, price, events) <= max_attempts,
{
    attempts_count_dispatches(max_attempts, price, events);
}

proof fn attempts_count_dispatches(
    max_attempts: u32,
    price: Option<ModelPricing>,
    events: Seq<VerifyEventModel>,
)
    ensures
        ({
            let m = verify_after(max_attempts, price, verify_start(), events);
            let n = fixer_dispatches(max_attempts, price, events);
            &&& m.attempt <= max_attempts
            &&& n <= m.attempt
            &&& m.at == VerifyStep::Test || m.at == VerifyStep::Retest ==> n == m.attempt
            &&& m.at == VerifyStep::Poll || m.at == VerifyStep::Fix ==> n + 1 == m.attempt
        }),
    decreases events.len(),
{
    if events.len() > 0 {
        attempts_count_dispatches(max_attempts, price, events.drop_last());
    }
}

/// A cycle that ends as `Okay` ends with a test run that passed, or without a
/// test runner, and leaves the session's summary alone.
pub proof fn okay_means_tests_passed(
    max_attempts: u32,
    price: Option<ModelPricing>,
    m: VerifyModel,
    e: VerifyEventModel,
)
    requires
        m.at != VerifyStep::Done,
        verify_next(max_attempts, price, m, e).at == VerifyStep::Done,
        verify_next(max_attempts, price, m, e).status == SessionStatus::Okay,
    ensures
        e is NoRunner || (e matches VerifyEventModel::Tested { passed, .. } && passed),
        verify_next(max_attempts, price, m, e).summary_override is None,
{
}

/// A test run decides how the cycle goes on. One that passes, be it the first or
/// the one behind a fixer, ends it well; so does a workspace without a test
/// runner. One that fails is answered by another fixer attempt, with the summary
/// of this very run, while attempts are left; with none left it ends as an error
/// that carries that summary.
pub proof fn test_runs_decide_the_cycle(
    max_attempts: u32,
    price: Option<ModelPricing>,
    m: VerifyModel,
    summary: Seq<char>,
)
    requires
        m.at == VerifyStep::Test || m.at == VerifyStep::Retest,
    ensures
        ({
            let good = verify_next(
                max_attempts,
                price,
                m,
                VerifyEventModel::Tested { passed: true, summary },
            );
            let bad = verify_next(
                max_attempts,
                price,
                m,
                VerifyEventModel::Tested { passed: false, summary },
            );
            &&& good.at == VerifyStep::Done && good.status == SessionStatus::Okay
                && good.summary_override is None
            &&& m.attempt < max_attempts ==> bad.at == VerifyStep::Poll && bad.attempt == m.attempt
                + 1 && bad.failure == summary && bad.status == m.status
            &&& m.attempt >= max_attempts ==> bad.at == VerifyStep::Done && bad.status
                == SessionStatus::Error && bad.summary_override is Some
            &&& m.attempt >= max_attempts ==> {
                let told = bad.summary_override->0;
                &&& summary.len() <= told.len()
                &&& told.skip(told.len() - summary.len()) == summary
            }
            &&& good.tokens == m.tokens && good.cost == m.cost
            &&& bad.tokens == m.tokens && bad.cost == m.cost
        }),
        m.at == VerifyStep::Test ==> {
            let none = verify_next(max_attempts, price, m, VerifyEventModel::NoRunner);
            none.at == VerifyStep::Done && none.status == SessionStatus::Okay
                && none.summary_override is None
        },
{
    let bad = verify_next(
        max_attempts,
        price,
        m,
        VerifyEventModel::Tested { passed: false, summary },
    );
    if m.attempt >= max_attempts {
        let told = bad.summary_override->0;
        assert(told.skip(told.len() - summary.len()) =~= summary);
    }
}

/// A fixer attempt begins unless the run was aborted, and then the cycle is
/// aborted. What the fixer consumed is added to the tokens of the cycle, and its
/// cost at the price of its model to the cost, however it ended. Only a dispatch
/// that completed is followed by a test run: a cancelled one aborts the cycle, and
/// one that timed out or failed ends it as an error.
pub proof fn fixers_are_paid_and_retested(
    max_attempts: u32,
    price: Option<ModelPricing>,
    m: VerifyModel,
    stop: StopModel,
    tokens: UsageModel,
)
    ensures
        m.at == VerifyStep::Poll ==> {
            let on = verify_next(max_attempts, price, m, VerifyEventModel::Polled(false));
            let off = verify_next(max_attempts, price, m, VerifyEventModel::Polled(true));
            &&& on.at == VerifyStep::Fix && on.attempt == m.attempt && on.failure == m.failure
            &&& off.at == VerifyStep::Done && off.status == SessionStatus::Aborted
            &&& on.tokens == m.tokens && on.cost == m.cost && off.tokens == m.tokens && off.cost
                == m.cost
        },
        m.at == VerifyStep::Fix ==> {
            let n = verify_next(max_attempts, price, m, VerifyEventModel::Fixed { stop, tokens });
            &&& stop is Completed ==> n.at == VerifyStep::Retest && n.status == m.status
            &&& stop is Cancelled ==> n.at == VerifyStep::Done && n.status == SessionStatus::Aborted
            &&& stop is Timeout || stop is Error ==> n.at == VerifyStep::Done && n.status
                == SessionStatus::Error
            &&& n.attempt == m.attempt
            &&& m.tokens.input + tokens.input <= u64::MAX ==> n.tokens.input == m.tokens.input
                + tokens.input
            &&& m.tokens.output + tokens.output <= u64::MAX ==> n.tokens.output == m.tokens.output
                + tokens.output
            &&& price is None ==> n.cost == m.cost
            &&& price matches Some(p) ==> {
                let sum = tokens.input * p.input_micros_per_million + tokens.output
                    * p.output_micros_per_million;
                0 <= m.cost.pico && m.cost.pico + sum <= i128::MAX ==> n.cost.pico == m.cost.pico
                    + sum
            }
        },
{
    if let Some(p) = price {
        budget::tokens_are_priced_one_by_one(p, tokens.input, tokens.output);
        let (a, b) = (tokens.input as int, p.input_micros_per_million as int);
        let (c, d) = (tokens.output as int, p.output_micros_per_million as int);
        assert(0 <= a * b) by (nonlinear_arith)
            requires
                0 <= a,
                0 <= b,
        ;
        assert(0 <= c * d) by (nonlinear_arith)
            requires
                0 <= c,
                0 <= d,
        ;
    }
}

/// Failing tests make a session an error only once every fixer attempt that the
/// settings allow was made.
pub proof fn every_attempt_is_made(
    max_attempts: u32,
    price: Option<ModelPricing>,
    events: Seq<VerifyEventModel>,
    summary: Seq<char>,
)
    requires
        ({
            let m = verify_after(max_attempts, price, verify_start(), events);
            let e = VerifyEventModel::Tested { passed: false, summary };
            m.at != VerifyStep::Done && verify_next(max_attempts, price, m, e).at
                == VerifyStep::Done
        }),
    ensures
        fixer_dispatches(max_attempts, price, events) == max_attempts,
{
    attempts_count_dispatches(max_attempts, price, events);
}

/// The verify cycle of one session: run the project's test suite and, on
/// failure, dispatch the fixer agent up to the configured number of times
/// before recording the session as `Error`.
///
/// Each attempt re-runs the test suite; the first passing run resolves the
/// verify cycle as `Okay`. Tokens consumed by every fixer dispatch are
/// accumulated so the caller can fold them onto the session total. A cancelled
/// fixer dispatch surfaces as `Aborted`; an erroring dispatch (timeout /
/// non-zero exit / agent failure) bails the loop with `Error`.
#[derive(Debug, PartialEq, Eq)]
pub struct VerifyLoop {
    max_attempts: u32,
    price: Option<ModelPricing>,
    at: VerifyStep,
    attempt: u32,
    failure: String,
    status: SessionStatus,
    summary_override: Option<String>,
    tokens: TokenUsage,
    cost: Usd,
}

impl View for VerifyLoop {
    type V = VerifyModel;

    closed spec fn view(&self) -> VerifyModel {
        VerifyModel {
            at: self.at,
            attempt: self.attempt,
            failure: self.failure@,
            status: self.status,
            summary_override: text::view_of(self.summary_override),
            tokens: self.tokens@,
            cost: self.cost,
        }
    }
}

impl VerifyLoop {
    /// The most fixer attempts.
    pub closed spec fn limit(self) -> u32 {
        self.max_attempts
    }

    /// What the fixer's model charges.
    pub closed spec fn fixer_price(self) -> Option<ModelPricing> {
        self.price
    }

    /// A cycle with at most `max_attempts` fixer dispatches, whose model
    /// charges `price`.
    pub fn new(max_attempts: u32, price: Option<ModelPricing>) -> (r: Self)
        ensures
            r.limit() == max_attempts,
            r.fixer_price() == price,
            r@ == verify_start(),
    {
        let r = VerifyLoop {
            max_attempts,
            price,
            at: VerifyStep::Test,
            attempt: 0,
            failure: String::new(),
            status: SessionStatus::Okay,
            summary_override: None,
            tokens: TokenUsage::zero(),
            cost: Usd::zero(),
        };
        assert(r@ =~= verify_start());
        r
    }

    /// What is due.
    pub fn step(&self) -> (r: VerifyStep)
        ensures
            r == self@.at,
    {
        self.at
    }

    /// The current fixer attempt, counted from one.
    pub fn attempt(&self) -> (r: u32)
        ensures
            r == self@.attempt,
    {
        self.attempt
    }

    /// The summary of the latest failed test run, for the fixer prompt.
    pub fn failure(&self) -> (r: &str)
        ensures
            r@ == self@.failure,
    {
        self.failure.as_str()
    }

    fn end(self, status: SessionStatus, summary: Option<String>) -> (r: Self)
        ensures
            r.limit() == self.limit(),
            r.fixer_price() == self.fixer_price(),
            r@ == verify_end(self@, status, text::view_of(summary)),
    {
        let mut m = self;
        m.at = VerifyStep::Done;
        m.status = status;
        m.summary_override = summary;
        m
    }

    fn failed(self, summary: String) -> (r: Self)
        ensures
            r.limit() == self.limit(),
            r.fixer_price() == self.fixer_price(),
            r@ == verify_failed(self.limit(), self@, summary@),
    {
        if self.attempt < self.max_attempts {
            let mut m = self;
            m.at = VerifyStep::Poll;
            m.attempt = m.attempt + 1;
            m.failure = summary;
            m
        } else if self.max_attempts == 0 {
            let mut text = text::owned("verify failed: ");
            text.append(summary.as_str());
            self.end(SessionStatus::Error, Some(text))
        } else {
            let mut text = text::owned("verify failed after ");
            text.append(text::decimal_u32(self.max_attempts).as_str());
            text.append(" fixer attempts: ");
            text.append(summary.as_str());
            self.end(SessionStatus::Error, Some(text))
        }
    }

    fn fixed(self, stop: StopReason) -> (r: Self)
        ensures
            r.limit() == self.limit(),
            r.fixer_price() == self.fixer_price(),
            r@ == verify_fixed(self@, stop@),
    {
        match stop {
            StopReason::Completed => {
                let mut m = self;
                m.at = VerifyStep::Retest;
                m
            },
            StopReason::Cancelled => {
                self.end(
                    SessionStatus::Aborted,
                    Some(text::owned("verify aborted during fixer dispatch")),
                )
            },
            StopReason::Timeout => {
                let mut text = text::owned("fixer attempt ");
                text.append(text::decimal_u32(self.attempt).as_str());
                text.append(" timed out");
                self.end(SessionStatus::Error, Some(text))
            },
            StopReason::Error(msg) => {
                let mut text = text::owned("fixer attempt ");
                text.append(text::decimal_u32(self.attempt).as_str());
                text.append(" failed: ");
                text.append(msg.as_str());
                self.end(SessionStatus::Error, Some(text))
            },
        }
    }

    /// Takes in what came of the step that was due.
    pub fn advance(self, event: VerifyEvent) -> (r: Self)
        ensures
            r.limit() == self.limit(),
            r.fixer_price() == self.fixer_price(),
            r@ == verify_next(self.limit(), self.fixer_price(), self@, event@),
    {
        match (self.at, event) {
            (VerifyStep::Test, VerifyEvent::NoRunner) => self.end(SessionStatus::Okay, None),
            (VerifyStep::Test, VerifyEvent::Tested { passed, summary }) => {
                if passed {
                    self.end(SessionStatus::Okay, None)
                } else {
                    self.failed(summary)
                }
            },
            (VerifyStep::Poll, VerifyEvent::Polled(cancelled)) => {
                if cancelled {
                    self.end(
                        SessionStatus::Aborted,
                        Some(text::owned("verify aborted before fixer attempt")),
                    )
                } else {
                    let mut m = self;
                    m.at = VerifyStep::Fix;
                    m
                }
            },
            (VerifyStep::Fix, VerifyEvent::Fixed { stop, tokens }) => {
                let mut m = self;
                let spent = price_of(m.price, tokens.input, tokens.output);
                m.tokens.fold(&tokens);
                m.cost = m.cost.plus(spent);
                m.fixed(stop)
            },
            (VerifyStep::Retest, VerifyEvent::Tested { passed, summary }) => {
                if passed {
                    self.end(SessionStatus::Okay, None)
                } else {
                    self.failed(summary)
                }
            },
            _ => self,
        }
    }

    /// What the cycle came to.
    pub fn finish(self) -> (r: VerifyOutcome)
        ensures
            r@ == (VerifyOutcomeModel {
                status: self@.status,
                summary_override: self@.summary_override,
                extra_tokens: self@.tokens,
                extra_cost_usd: self@.cost,
            }),
    {
        VerifyOutcome {
            status: self.status,
            summary_override: self.summary_override,
            extra_tokens: self.tokens,
            extra_cost_usd: self.cost,
        }
    }
}

} // verus!
