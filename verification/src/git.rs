//! The names and messages that pitboss gives to git.

use vstd::prelude::*;
use vstd::string::StringExecFns;

use crate::plan::PhaseId;
use crate::text;
use crate::time::Timestamp;

verus! {

/// The message of a phase's commit.
pub open spec fn commit_text(phase_id: Seq<char>, title: Seq<char>) -> Seq<char> {
    "[pitboss] phase "@ + phase_id + ": "@ + title
}

/// The commit of a phase names its id and its title.
pub proof fn phase_commits_name_their_phase(phase_id: Seq<char>, title: Seq<char>)
    ensures
        text::contains(commit_text(phase_id, title), "[pitboss] phase "@ + phase_id),
        text::contains(commit_text(phase_id, title), title),
{
    text::parts_are_held(
        Seq::<char>::empty(),
        "[pitboss] phase "@ + phase_id,
        ": "@ + title,
        commit_text(phase_id, title),
    );
    text::parts_are_held(
        "[pitboss] phase "@ + phase_id + ": "@,
        title,
        Seq::<char>::empty(),
        commit_text(phase_id, title),
    );
}

/// The message of a phase's commit.
pub fn commit_message(phase_id: &PhaseId, title: &str) -> (r: String)
    ensures
        r@ == commit_text(phase_id@, title@),
{
    let mut out = text::owned("[pitboss] phase ");
    out.append(phase_id.as_str());
    out.append(": ");
    out.append(title);
    out
}

/// The message of a sweep's commit.
pub open spec fn sweep_commit_text(after: Seq<char>, resolved: nat) -> Seq<char> {
    "[pitboss] sweep after phase "@ + after + ": "@ + text::decimal(resolved)
        + " deferred items resolved"@
}

/// The commit of a sweep names the phase that it came after, and how many items it
/// resolved.
pub proof fn sweep_commits_count_what_they_resolve(after: Seq<char>, resolved: nat)
    ensures
        text::contains(sweep_commit_text(after, resolved), "[pitboss] sweep after phase "@ + after),
        text::contains(
            sweep_commit_text(after, resolved),
            ": "@ + text::decimal(resolved) + " deferred items resolved"@,
        ),
{
    text::parts_are_held(
        Seq::<char>::empty(),
        "[pitboss] sweep after phase "@ + after,
        ": "@ + text::decimal(resolved) + " deferred items resolved"@,
        sweep_commit_text(after, resolved),
    );
    text::parts_are_held(
        "[pitboss] sweep after phase "@ + after,
        ": "@ + text::decimal(resolved) + " deferred items resolved"@,
        Seq::<char>::empty(),
        sweep_commit_text(after, resolved),
    );
}

/// The message of a sweep's commit.
pub fn commit_message_sweep(after: &PhaseId, resolved: usize) -> (r: String)
    ensures
        r@ == sweep_commit_text(after@, resolved as nat),
{
    let mut out = text::owned("[pitboss] sweep after phase ");
    out.append(after.as_str());
    out.append(": ");
    out.append(text::decimal_usize(resolved).as_str());
    out.append(" deferred items resolved");
    out
}

/// The branch of a run that starts at `now`.
pub fn branch_name(prefix: &str, now: Timestamp) -> (r: String)
    ensures
        r@ == prefix@ + now.compact(),
{
    let mut out = text::owned(prefix);
    out.append(now.to_compact().as_str());
    out
}

} // verus!
