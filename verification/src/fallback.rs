//! Trying one language after another until a fetch succeeds.
//!
//! The candidates are tried strictly in order of preference, one at a time.
//! The first one that succeeds wins, and nothing after it is tried. A
//! candidate that fails makes way for the next one; when the last one has
//! failed, its error is the error of the whole retrieval. A malformed payload
//! says something about the video rather than about the language, so it ends
//! the retrieval at once.
//!
//! The fetching itself happens elsewhere: the caller looks at the phase, does
//! what it asks for, and reports how that went.

use vstd::prelude::*;
use crate::error::CaptionError;

verus! {

/// Where a retrieval stands, which is also what the caller has to do next.
#[derive(Clone, Copy, Debug, PartialEq, Eq, Structural)]
pub enum Phase {
    /// The candidate at this position is to be tried now.
    Trying(usize),
    /// The candidate at this position succeeded. Nothing is left to do.
    Won(usize),
    /// The retrieval failed for good, with this error.
    Lost(CaptionError),
}

/// How the attempt for one candidate went.
#[derive(Clone, Copy, Debug, PartialEq, Eq, Structural)]
pub enum Attempt {
    Succeeded,
    Failed(CaptionError),
}

/// A retrieval over a fixed number of candidates.
#[derive(Clone, Copy, Debug, PartialEq, Eq, Structural)]
pub struct Fallback {
    /// How many candidates there are.
    pub candidates: usize,
    pub phase: Phase,
}

/// The phase of a retrieval over `candidates` candidates before anything is tried.
pub open spec fn first_phase(candidates: usize) -> Phase {
    if candidates == 0 {
        Phase::Lost(CaptionError::NoMatchingLanguage)
    } else {
        Phase::Trying(0)
    }
}

/// The phase that follows `phase` once `attempt` is reported.
pub open spec fn next_phase(candidates: usize, phase: Phase, attempt: Attempt) -> Phase {
    match phase {
        Phase::Trying(current) => match attempt {
            Attempt::Succeeded => Phase::Won(current),
            Attempt::Failed(error) => if error != CaptionError::MalformedPayload && current + 1
                < candidates {
                Phase::Trying((current + 1) as usize)
            } else {
                Phase::Lost(error)
            },
        },
        finished => finished,
    }
}

/// The phase reached from `phase` after the attempts `attempts`, in order.
pub open spec fn phase_after(candidates: usize, phase: Phase, attempts: Seq<Attempt>) -> Phase
    decreases attempts.len(),
{
    if attempts.len() == 0 {
        phase
    } else {
        next_phase(
            candidates,
            phase_after(candidates, phase, attempts.drop_last()),
            attempts.last(),
        )
    }
}

/// An attempt after which the next candidate gets its turn.
pub open spec fn lets_next_try(attempt: Attempt) -> bool {
    attempt matches Attempt::Failed(error) && error != CaptionError::MalformedPayload
}

impl Fallback {
    /// A candidate that is being tried, or has won, is one of the candidates.
    pub open spec fn well_formed(self) -> bool {
        match self.phase {
            Phase::Trying(current) => current < self.candidates,
            Phase::Won(winner) => winner < self.candidates,
            Phase::Lost(_) => true,
        }
    }

    /// Whether any attempt is still wanted.
    pub open spec fn is_finished(self) -> bool {
        !(self.phase is Trying)
    }

    /// Starts a retrieval over `candidates` candidates. With no candidate at
    /// all it is lost before it begins, for want of a matching language.
    pub fn begin(candidates: usize) -> (start: Fallback)
        ensures
            start.candidates == candidates,
            start.phase == first_phase(candidates),
            start.well_formed(),
    {
        if candidates == 0 {
            Fallback { candidates, phase: Phase::Lost(CaptionError::NoMatchingLanguage) }
        } else {
            Fallback { candidates, phase: Phase::Trying(0) }
        }
    }

    /// Takes in how the attempt for the current candidate went.
    ///
    /// A success wins. A malformed payload loses at once. Any other failure
    /// hands the turn to the next candidate, or loses with that failure when
    /// there is no next one. A finished retrieval stays as it is.
    pub fn report(self, attempt: Attempt) -> (next: Fallback)
        ensures
            next.candidates == self.candidates,
            next.phase == next_phase(self.candidates, self.phase, attempt),
            self.well_formed() ==> next.well_formed(),
    {
        let phase = match self.phase {
            Phase::Trying(current) => match attempt {
                Attempt::Succeeded => Phase::Won(current),
                Attempt::Failed(error) => {
                    let retry = match error {
                        CaptionError::MalformedPayload => false,
                        _ => true,
                    };
                    if retry && self.candidates > 0 && current < self.candidates - 1 {
                        Phase::Trying(current + 1)
                    } else {
                        Phase::Lost(error)
                    }
                },
            },
            Phase::Won(winner) => Phase::Won(winner),
            Phase::Lost(error) => Phase::Lost(error),
        };
        Fallback { candidates: self.candidates, phase }
    }
}

/// A finished retrieval takes no notice of further reports.
pub proof fn lemma_finished_stays(candidates: usize, phase: Phase, attempts: Seq<Attempt>)
    requires
        !(phase is Trying),
    ensures
        phase_after(candidates, phase, attempts) == phase,
    decreases attempts.len(),
{
    if attempts.len() > 0 {
        lemma_finished_stays(candidates, phase, attempts.drop_last());
    }
}

/// Candidates are tried in order, one for each failure: after `n` failures
/// that let the next one try, with candidates left, candidate `n` is the one
/// being tried.
pub proof fn lemma_tried_in_order(candidates: usize, attempts: Seq<Attempt>)
    requires
        attempts.len() < candidates,
        forall|i: int| 0 <= i < attempts.len() ==> lets_next_try(#[trigger] attempts[i]),
    ensures
        phase_after(candidates, first_phase(candidates), attempts) == Phase::Trying(
            attempts.len() as usize,
        ),
    decreases attempts.len(),
{
    if attempts.len() > 0 {
        lemma_tried_in_order(candidates, attempts.drop_last());
    }
}

/// The first success wins: when the first `n` attempts fail and the next one
/// succeeds, candidate `n` has won, whatever is reported afterwards.
pub proof fn lemma_first_success_wins(
    candidates: usize,
    failures: Seq<Attempt>,
    later: Seq<Attempt>,
)
    requires
        failures.len() < candidates,
        forall|i: int| 0 <= i < failures.len() ==> lets_next_try(#[trigger] failures[i]),
    ensures
        phase_after(
            candidates,
            first_phase(candidates),
            failures.push(Attempt::Succeeded) + later,
        ) == Phase::Won(failures.len() as usize),
    decreases later.len(),
{
    let won = failures.push(Attempt::Succeeded);
    if later.len() == 0 {
        assert(won + later =~= won);
        assert(won.drop_last() =~= failures);
        lemma_tried_in_order(candidates, failures);
    } else {
        assert((won + later).drop_last() =~= won + later.drop_last());
        lemma_first_success_wins(candidates, failures, later.drop_last());
    }
}

/// When every candidate fails, the retrieval is lost with the error of the
/// last one.
pub proof fn lemma_last_error_surfaces(candidates: usize, attempts: Seq<Attempt>)
    requires
        attempts.len() == candidates,
        candidates > 0,
        forall|i: int| 0 <= i < attempts.len() ==> (#[trigger] attempts[i]) is Failed,
        forall|i: int| 0 <= i < attempts.len() - 1 ==> lets_next_try(#[trigger] attempts[i]),
    ensures
        phase_after(candidates, first_phase(candidates), attempts) == Phase::Lost(
            attempts.last()->Failed_0,
        ),
{
    lemma_tried_in_order(candidates, attempts.drop_last());
}

/// No candidate is tried twice and none is skipped: while the retrieval is
/// still trying, the candidate in turn is the one whose position is the
/// number of reports so far. So a retrieval is finished, at the latest,
/// after as many reports as there are candidates.
pub proof fn lemma_one_try_each(candidates: usize, attempts: Seq<Attempt>)
    ensures
        phase_after(candidates, first_phase(candidates), attempts) matches Phase::Trying(current)
            ==> current == attempts.len() && current < candidates,
        attempts.len() >= candidates ==> !(phase_after(
            candidates,
            first_phase(candidates),
            attempts,
        ) is Trying),
    decreases attempts.len(),
{
    if attempts.len() > 0 {
        lemma_one_try_each(candidates, attempts.drop_last());
    }
}

/// A malformed payload ends the retrieval on the spot, with candidates left
/// or not.
pub proof fn lemma_malformed_payload_is_final(candidates: usize, current: usize)
    ensures
        next_phase(
            candidates,
            Phase::Trying(current),
            Attempt::Failed(CaptionError::MalformedPayload),
        ) == Phase::Lost(CaptionError::MalformedPayload),
{
}

} // verus!
