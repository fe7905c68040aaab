//! Validation of one agent dispatch.
//!
//! An agent may not touch `plan.md`, and has to leave a readable `deferred.md`
//! behind. [`Validation`] says which file is to be read or put back next and
//! takes in what came of it; a dispatch is built on only where it completed,
//! left the plan as it was, and left a backlog that parses. On any failure both
//! files are put back as they were before the dispatch, and the run halts.

use vstd::prelude::*;

use super::pipeline;
use super::pipeline::{HaltModel, HaltReason};
use crate::agent::{StopModel, StopReason};
use crate::deferred;
use crate::deferred::{DeferredDoc, DeferredModel};
use crate::plan::snapshot;
use crate::plan::snapshot::Snapshot;

verus! {

/// What a validation waits for.
#[derive(Debug, Clone, Copy, PartialEq, Eq, Structural)]
pub enum ValidationStep {
    /// The dispatch of the agent.
    Dispatch,
    /// The bytes of `plan.md`.
    ReadPlan,
    /// Putting back what `plan.md` was before the dispatch.
    RestorePlan,
    /// The text of `deferred.md`, empty where there is no such file.
    ReadDeferred,
    /// Putting back what `deferred.md` was before the dispatch; where there was
    /// no such file, removing it.
    RestoreDeferred,
    /// Nothing is left to do: the dispatch can be built on.
    Passed,
    /// Nothing is left to do: the dispatch halts the run.
    Halted,
}

/// What came of a step of a validation.
#[derive(Debug, PartialEq, Eq)]
pub enum ValidationEvent {
    /// The agent ended.
    Stopped(StopReason),
    /// `plan.md` holds these bytes.
    PlanRead(Vec<u8>),
    /// `deferred.md` holds this text.
    DeferredRead(String),
    /// `plan.md` was put back.
    PlanRestored,
    /// `deferred.md` was put back.
    DeferredRestored,
}

/// A [`ValidationEvent`] as a mathematical value.
pub enum ValidationEventModel {
    Stopped(StopModel),
    PlanRead(Seq<u8>),
    DeferredRead(Seq<char>),
    PlanRestored,
    DeferredRestored,
}

impl View for ValidationEvent {
    type V = ValidationEventModel;

    open spec fn view(&self) -> ValidationEventModel {
        match self {
            ValidationEvent::Stopped(stop) => ValidationEventModel::Stopped(stop@),
            ValidationEvent::PlanRead(bytes) => ValidationEventModel::PlanRead(bytes@),
            ValidationEvent::DeferredRead(text) => ValidationEventModel::DeferredRead(text@),
            ValidationEvent::PlanRestored => ValidationEventModel::PlanRestored,
            ValidationEvent::DeferredRestored => ValidationEventModel::DeferredRestored,
        }
    }
}

/// Where a validation stands.
pub struct ValidationModel {
    /// What it waits for.
    pub at: ValidationStep,
    /// Why the dispatch halts the run.
    pub halt: Option<HaltModel>,
    /// The backlog that the dispatch left behind.
    pub backlog: Option<DeferredModel>,
}

/// The start of a validation.
pub open spec fn validation_start() -> ValidationModel {
    ValidationModel { at: ValidationStep::Dispatch, halt: None, backlog: None }
}

/// The validation that fails for `reason`: both files are put back first.
pub open spec fn validation_failed(m: ValidationModel, reason: HaltModel) -> ValidationModel {
    ValidationModel { at: ValidationStep::RestorePlan, halt: Some(reason), ..m }
}

/// The validation of a dispatch of `agent`, before which `plan.md` had the
/// digest `digest`, after the event `e`. An event that is not due changes
/// nothing.
pub open spec fn validation_next(
    agent: Seq<char>,
    digest: Seq<u8>,
    m: ValidationModel,
    e: ValidationEventModel,
) -> ValidationModel {
    match (m.at, e) {
        (ValidationStep::Dispatch, ValidationEventModel::Stopped(stop)) => {
            match super::stop_halt(stop, agent) {
                Some(reason) => validation_failed(m, reason),
                None => ValidationModel { at: ValidationStep::ReadPlan, ..m },
            }
        },
        (ValidationStep::ReadPlan, ValidationEventModel::PlanRead(bytes)) => {
            if snapshot::sha256(bytes) == digest {
                ValidationModel { at: ValidationStep::ReadDeferred, ..m }
            } else {
                validation_failed(m, HaltModel::PlanTampered)
            }
        },
        (ValidationStep::ReadDeferred, ValidationEventModel::DeferredRead(text)) => {
            match deferred::parsed_deferred(text) {
                Ok(doc) => ValidationModel {
                    at: ValidationStep::Passed,
                    backlog: Some(doc),
                    ..m
                },
                Err(fault) => validation_failed(
                    m,
                    HaltModel::DeferredInvalid(deferred::deferred_message(fault)),
                ),
            }
        },
        (ValidationStep::RestorePlan, ValidationEventModel::PlanRestored) => ValidationModel {
            at: ValidationStep::RestoreDeferred,
            ..m
        },
        (ValidationStep::RestoreDeferred, ValidationEventModel::DeferredRestored) =>
            ValidationModel { at: ValidationStep::Halted, ..m },
        _ => m,
    }
}

/// A validation from its start through the events `events`.
pub open spec fn validation_after(
    agent: Seq<char>,
    digest: Seq<u8>,
    events: Seq<ValidationEventModel>,
) -> ValidationModel
    decreases events.len(),
{
    if events.len() == 0 {
        validation_start()
    } else {
        validation_next(
            agent,
            digest,
            validation_after(agent, digest, events.drop_last()),
            events.last(),
        )
    }
}

/// How many events a validation can still take in at most.
pub open spec fn validation_rank(at: ValidationStep) -> int {
    match at {
        ValidationStep::Dispatch => 5,
        ValidationStep::ReadPlan => 4,
        ValidationStep::ReadDeferred => 3,
        ValidationStep::RestorePlan => 2,
        ValidationStep::RestoreDeferred => 1,
        ValidationStep::Passed => 0,
        ValidationStep::Halted => 0,
    }
}

/// A validation ends: each event either is ignored or brings it closer to its
/// end, so it takes in at most five.
pub proof fn validation_is_bounded(
    agent: Seq<char>,
    digest: Seq<u8>,
    m: ValidationModel,
    e: ValidationEventModel,
)
    ensures
        ({
            let n = validation_next(agent, digest, m, e);
            n == m || validation_rank(n.at) < validation_rank(m.at)
        }),
        validation_rank(validation_start().at) == 5,
{
}

/// Some agent completed among `events`.
pub open spec fn completed(events: Seq<ValidationEventModel>) -> bool {
    events.contains(ValidationEventModel::Stopped(StopModel::Completed))
}

/// `plan.md` was read among `events`, and its digest was `digest`.
pub open spec fn plan_unchanged(events: Seq<ValidationEventModel>, digest: Seq<u8>) -> bool {
    exists|bytes: Seq<u8>| #[trigger]
        events.contains(ValidationEventModel::PlanRead(bytes)) && snapshot::sha256(bytes)
            == digest
}

/// `deferred.md` was read among `events` and is the backlog `doc`.
pub open spec fn backlog_read(events: Seq<ValidationEventModel>, doc: DeferredModel) -> bool {
    exists|text: Seq<char>| #[trigger]
        events.contains(ValidationEventModel::DeferredRead(text)) && deferred::parsed_deferred(text)
            == Ok::<DeferredModel, deferred::DeferredFault>(doc)
}

/// A dispatch is built on only where the agent completed, left `plan.md` with
/// the digest that it had, and left a backlog that parses, which is the one
/// that is carried on. One that halts has a reason, and one that does not has
/// none.
pub proof fn only_clean_dispatches_pass(
    agent: Seq<char>,
    digest: Seq<u8>,
    events: Seq<ValidationEventModel>,
)
    ensures
        ({
            let m = validation_after(agent, digest, events);
            &&& m.at == ValidationStep::Passed ==> {
                &&& completed(events)
                &&& plan_unchanged(events, digest)
                &&& m.halt is None
                &&& m.backlog matches Some(doc) && backlog_read(events, doc)
            }
            &&& m.at == ValidationStep::Halted ==> m.halt is Some && m.backlog is None
        }),
{
    validation_invariant(agent, digest, events);
}

proof fn validation_invariant(
    agent: Seq<char>,
    digest: Seq<u8>,
    events: Seq<ValidationEventModel>,
)
    ensures
        ({
            let m = validation_after(agent, digest, events);
            &&& m.at == ValidationStep::ReadPlan || m.at == ValidationStep::ReadDeferred || m.at
                == ValidationStep::Passed ==> completed(events)
            &&& m.at == ValidationStep::ReadDeferred || m.at == ValidationStep::Passed
                ==> plan_unchanged(events, digest)
            &&& if m.at == ValidationStep::Passed {
                m.backlog matches Some(doc) && backlog_read(events, doc)
            } else {
                m.backlog is None
            }
            &&& m.halt is Some <==> m.at == ValidationStep::RestorePlan || m.at
                == ValidationStep::RestoreDeferred || m.at == ValidationStep::Halted
        }),
    decreases events.len(),
{
    if events.len() > 0 {
        let front = events.drop_last();
        validation_invariant(agent, digest, front);
        let m = validation_after(agent, digest, front);
        assert(events =~= front.push(events.last()));
        assert forall|e: ValidationEventModel| #[trigger]
            front.contains(e) implies events.contains(e) by {
            let i = choose|i: int| 0 <= i < front.len() && front[i] == e;
            assert(events[i] == e);
        }
        assert(events.contains(events.last())) by {
            assert(events[events.len() - 1] == events.last());
        }
        if plan_unchanged(front, digest) {
            let bytes = choose|bytes: Seq<u8>| #[trigger]
                front.contains(ValidationEventModel::PlanRead(bytes)) && snapshot::sha256(bytes)
                    == digest;
            assert(events.contains(ValidationEventModel::PlanRead(bytes)));
        }
        if m.at == ValidationStep::Passed {
            let doc = m.backlog->Some_0;
            let text = choose|text: Seq<char>| #[trigger]
                front.contains(ValidationEventModel::DeferredRead(text))
                    && deferred::parsed_deferred(text) == Ok::<
                    DeferredModel,
                    deferred::DeferredFault,
                >(doc);
            assert(events.contains(ValidationEventModel::DeferredRead(text)));
        }
        match (m.at, events.last()) {
            (ValidationStep::Dispatch, ValidationEventModel::Stopped(stop)) => {
                assert(super::stop_halt(stop, agent) is None ==> stop == StopModel::Completed);
            },
            (ValidationStep::ReadPlan, ValidationEventModel::PlanRead(bytes)) => {
                assert(events.contains(ValidationEventModel::PlanRead(bytes)));
            },
            (ValidationStep::ReadDeferred, ValidationEventModel::DeferredRead(text)) => {
                assert(events.contains(ValidationEventModel::DeferredRead(text)));
            },
            _ => {},
        }
    }
}

/// Among `events` the event `e` was taken in at the step `at`.
pub open spec fn took_in(
    agent: Seq<char>,
    digest: Seq<u8>,
    events: Seq<ValidationEventModel>,
    at: ValidationStep,
    e: ValidationEventModel,
) -> bool
    decreases events.len(),
{
    events.len() > 0 && {
        let front = events.drop_last();
        ||| took_in(agent, digest, front, at, e)
        ||| validation_after(agent, digest, front).at == at && events.last() == e
    }
}

/// On any failure both files are put back before the run halts: whatever
/// happens, a validation has halted only once `plan.md` and then `deferred.md`
/// were restored when that was due.
pub proof fn both_files_are_restored_before_a_halt(
    agent: Seq<char>,
    digest: Seq<u8>,
    events: Seq<ValidationEventModel>,
)
    ensures
        validation_after(agent, digest, events).at == ValidationStep::Halted ==> {
            &&& took_in(
                agent,
                digest,
                events,
                ValidationStep::RestorePlan,
                ValidationEventModel::PlanRestored,
            )
            &&& took_in(
                agent,
                digest,
                events,
                ValidationStep::RestoreDeferred,
                ValidationEventModel::DeferredRestored,
            )
        },
{
    restored_in_turn(agent, digest, events);
}

proof fn restored_in_turn(agent: Seq<char>, digest: Seq<u8>, events: Seq<ValidationEventModel>)
    ensures
        ({
            let at = validation_after(agent, digest, events).at;
            &&& at == ValidationStep::RestoreDeferred || at == ValidationStep::Halted ==> took_in(
                agent,
                digest,
                events,
                ValidationStep::RestorePlan,
                ValidationEventModel::PlanRestored,
            )
            &&& at == ValidationStep::Halted ==> took_in(
                agent,
                digest,
                events,
                ValidationStep::RestoreDeferred,
                ValidationEventModel::DeferredRestored,
            )
        }),
    decreases events.len(),
{
    if events.len() > 0 {
        restored_in_turn(agent, digest, events.drop_last());
    }
}

/// The verdict on a dispatch that ended as `stop` and left `plan.md` as `bytes`
/// and `deferred.md` as `text`: the halt, or the backlog.
pub open spec fn verdict(
    agent: Seq<char>,
    digest: Seq<u8>,
    stop: StopModel,
    bytes: Seq<u8>,
    text: Seq<char>,
) -> Result<DeferredModel, HaltModel> {
    if super::stop_halt(stop, agent) is Some {
        Err(super::stop_halt(stop, agent)->0)
    } else if snapshot::sha256(bytes) != digest {
        Err(HaltModel::PlanTampered)
    } else {
        match deferred::parsed_deferred(text) {
            Ok(doc) => Ok(doc),
            Err(fault) => Err(HaltModel::DeferredInvalid(deferred::deferred_message(fault))),
        }
    }
}

/// A dispatch is halted for the first thing that is wrong with it: an agent
/// that did not complete, then a changed `plan.md`, then a `deferred.md` that
/// does not parse. One with nothing wrong passes.
pub proof fn the_first_fault_decides(
    agent: Seq<char>,
    digest: Seq<u8>,
    stop: StopModel,
    bytes: Seq<u8>,
    text: Seq<char>,
)
    ensures
        ({
            let m = validation_after(
                agent,
                digest,
                seq![
                    ValidationEventModel::Stopped(stop),
                    ValidationEventModel::PlanRead(bytes),
                    ValidationEventModel::DeferredRead(text),
                    ValidationEventModel::PlanRestored,
                    ValidationEventModel::DeferredRestored,
                ],
            );
            match verdict(agent, digest, stop, bytes, text) {
                Ok(doc) => m.at == ValidationStep::Passed && m.backlog == Some(doc) && m.halt
                    is None,
                Err(reason) => m.at == ValidationStep::Halted && m.halt == Some(reason)
                    && m.backlog is None,
            }
        }),
        super::stop_halt(stop, agent) is Some <==> stop != StopModel::Completed,
{
    let e1 = seq![ValidationEventModel::Stopped(stop)];
    let e2 = e1.push(ValidationEventModel::PlanRead(bytes));
    let e3 = e2.push(ValidationEventModel::DeferredRead(text));
    let e4 = e3.push(ValidationEventModel::PlanRestored);
    let e5 = e4.push(ValidationEventModel::DeferredRestored);
    assert(e1.drop_last() =~= Seq::<ValidationEventModel>::empty());
    assert(e2.drop_last() =~= e1);
    assert(e3.drop_last() =~= e2);
    assert(e4.drop_last() =~= e3);
    assert(e5.drop_last() =~= e4);
    assert(validation_after(agent, digest, e1.drop_last()) == validation_start());
    let m1 = validation_after(agent, digest, e1);
    assert(m1 == validation_next(agent, digest, validation_start(), e1.last()));
    let m2 = validation_after(agent, digest, e2);
    assert(m2 == validation_next(agent, digest, m1, e2.last()));
    let m3 = validation_after(agent, digest, e3);
    assert(m3 == validation_next(agent, digest, m2, e3.last()));
    let m4 = validation_after(agent, digest, e4);
    assert(m4 == validation_next(agent, digest, m3, e4.last()));
    assert(validation_after(agent, digest, e5) == validation_next(agent, digest, m4, e5.last()));
    assert(seq![
        ValidationEventModel::Stopped(stop),
        ValidationEventModel::PlanRead(bytes),
        ValidationEventModel::DeferredRead(text),
        ValidationEventModel::PlanRestored,
        ValidationEventModel::DeferredRestored,
    ] =~= e5);
}

/// What is asked of a dispatch, in this order: that its agent completed, that
/// `plan.md` has the digest that it had, and that `deferred.md` parses. What parses
/// is the backlog that is carried on. Each failure has its own reason: the agent's
/// own, a tampered plan, or what the parser said.
pub proof fn each_failure_has_its_reason(
    agent: Seq<char>,
    digest: Seq<u8>,
    m: ValidationModel,
    stop: StopModel,
    bytes: Seq<u8>,
    text: Seq<char>,
)
    ensures
        m.at == ValidationStep::Dispatch ==> {
            let n = validation_next(agent, digest, m, ValidationEventModel::Stopped(stop));
            &&& stop is Completed ==> n.at == ValidationStep::ReadPlan && n.halt == m.halt
            &&& !(stop is Completed) ==> n.at == ValidationStep::RestorePlan && (n.halt matches
                Some(HaltModel::AgentFailure(msg)))
            &&& stop matches StopModel::Error(msg) ==> n.halt == Some(HaltModel::AgentFailure(msg))
        },
        m.at == ValidationStep::ReadPlan ==> {
            let n = validation_next(agent, digest, m, ValidationEventModel::PlanRead(bytes));
            &&& snapshot::sha256(bytes) == digest ==> n.at == ValidationStep::ReadDeferred && n.halt
                == m.halt
            &&& snapshot::sha256(bytes) != digest ==> n.at == ValidationStep::RestorePlan && n.halt
                == Some(HaltModel::PlanTampered)
        },
        m.at == ValidationStep::ReadDeferred ==> {
            let n = validation_next(agent, digest, m, ValidationEventModel::DeferredRead(text));
            &&& deferred::parsed_deferred(text) matches Ok(doc) ==> n.at == ValidationStep::Passed
                && n.backlog == Some(doc) && n.halt == m.halt
            &&& deferred::parsed_deferred(text) matches Err(fault) ==> n.at
                == ValidationStep::RestorePlan && n.halt == Some(
                HaltModel::DeferredInvalid(deferred::deferred_message(fault)),
            ) && n.backlog == m.backlog
        },
{
}

/// What came of a validation.
#[derive(Debug, PartialEq, Eq)]
pub enum ValidationResult {
    /// The dispatch can be built on; it left this backlog behind.
    Continue(DeferredDoc),
    /// The dispatch halts the run.
    Halt(HaltReason),
}

/// The validation of one dispatch.
#[derive(Debug, PartialEq, Eq)]
pub struct Validation {
    agent: String,
    plan: Snapshot,
    at: ValidationStep,
    halt: Option<HaltReason>,
    backlog: Option<DeferredDoc>,
}

/// The model of an optional backlog.
pub open spec fn backlog_view(doc: Option<DeferredDoc>) -> Option<DeferredModel> {
    match doc {
        Some(d) => Some(d@),
        None => None,
    }
}

impl View for Validation {
    type V = ValidationModel;

    closed spec fn view(&self) -> ValidationModel {
        ValidationModel {
            at: self.at,
            halt: pipeline::halt_view(self.halt),
            backlog: backlog_view(self.backlog),
        }
    }
}

impl Validation {
    /// The name of the agent.
    pub closed spec fn agent_name(self) -> Seq<char> {
        self.agent@
    }

    /// The digest that `plan.md` had before the dispatch.
    pub closed spec fn plan_digest(self) -> Seq<u8> {
        self.plan@
    }

    /// The validation of a dispatch of `agent`, before which `plan.md` holds
    /// `plan`.
    pub fn new(agent: &str, plan: &[u8]) -> (r: Self)
        ensures
            r.agent_name() == agent@,
            r.plan_digest() == snapshot::sha256(plan@),
            r@ == validation_start(),
    {
        Validation {
            agent: crate::text::owned(agent),
            plan: Snapshot::of_bytes(plan),
            at: ValidationStep::Dispatch,
            halt: None,
            backlog: None,
        }
    }

    /// What is due.
    pub fn step(&self) -> (r: ValidationStep)
        ensures
            r == self@.at,
    {
        self.at
    }

    /// Takes in what came of the step that was due.
    pub fn advance(self, event: ValidationEvent) -> (r: Self)
        ensures
            r.agent_name() == self.agent_name(),
            r.plan_digest() == self.plan_digest(),
            r@ == validation_next(self.agent_name(), self.plan_digest(), self@, event@),
    {
        let mut m = self;
        match (m.at, event) {
            (ValidationStep::Dispatch, ValidationEvent::Stopped(stop)) => {
                let halt = super::judge_stop(stop, m.agent.as_str());
                if halt.is_some() {
                    m.at = ValidationStep::RestorePlan;
                    m.halt = halt;
                } else {
                    m.at = ValidationStep::ReadPlan;
                }
            },
            (ValidationStep::ReadPlan, ValidationEvent::PlanRead(bytes)) => {
                if Snapshot::of_bytes(bytes.as_slice()).same(&m.plan) {
                    m.at = ValidationStep::ReadDeferred;
                } else {
                    m.at = ValidationStep::RestorePlan;
                    m.halt = Some(HaltReason::PlanTampered);
                }
            },
            (ValidationStep::ReadDeferred, ValidationEvent::DeferredRead(text)) => {
                match deferred::parse(text.as_str()) {
                    Ok(doc) => {
                        m.at = ValidationStep::Passed;
                        m.backlog = Some(doc);
                    },
                    Err(e) => {
                        m.at = ValidationStep::RestorePlan;
                        m.halt = Some(HaltReason::DeferredInvalid(e.message()));
                    },
                }
            },
            (ValidationStep::RestorePlan, ValidationEvent::PlanRestored) => {
                m.at = ValidationStep::RestoreDeferred;
            },
            (ValidationStep::RestoreDeferred, ValidationEvent::DeferredRestored) => {
                m.at = ValidationStep::Halted;
            },
            _ => {},
        }
        m
    }

    /// What came of the validation, where it has ended.
    pub fn finish(self) -> (r: Option<ValidationResult>)
        ensures
            match r {
                Some(ValidationResult::Continue(doc)) => self@.at == ValidationStep::Passed
                    && self@.backlog == Some(doc@),
                Some(ValidationResult::Halt(reason)) => self@.at == ValidationStep::Halted
                    && self@.halt == Some(reason@),
                None => !(self@.at == ValidationStep::Passed && self@.backlog is Some) && !(
                self@.at == ValidationStep::Halted && self@.halt is Some),
            },
    {
        match self.at {
            ValidationStep::Passed => match self.backlog {
                Some(doc) => Some(ValidationResult::Continue(doc)),
                None => None,
            },
            ValidationStep::Halted => match self.halt {
                Some(reason) => Some(ValidationResult::Halt(reason)),
                None => None,
            },
            _ => None,
        }
    }
}

} // verus!
