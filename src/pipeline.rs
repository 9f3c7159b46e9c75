//! The recursive proof pipeline as a stage machine: an inner proof of the
//! application relation, its compression into a constant-size proof, then a
//! finalized proof for on-chain verification. The proving itself is done by
//! the caller, who performs each action and reports how it went.
use vstd::prelude::*;

verus! {

/// Why a pipeline stage failed; every failure is final.
#[derive(Clone, Copy, Debug, PartialEq, Eq, Structural)]
pub enum PipelineError {
    /// Setup parameters were missing or of the wrong size.
    ParameterLoad,
    /// Key generation failed.
    KeyGeneration,
    /// The witness does not satisfy the relation.
    Unsatisfied,
    /// A proof could not be read.
    MalformedProof,
    /// A well-formed proof was rejected by its verifier.
    VerificationFailed,
}

/// Where the pipeline stands.
#[derive(Clone, Copy, Debug, PartialEq, Eq, Structural)]
pub enum Stage {
    /// The inner proof is to be generated.
    Inner,
    /// The inner proof is to be compressed.
    Compression,
    /// The finalized proof is to be generated.
    Finalization,
    /// Every stage succeeded.
    Done,
    /// A stage failed.
    Failed,
}

/// What the caller is to do next.
#[derive(Clone, Copy, Debug, PartialEq, Eq, Structural)]
pub enum Action {
    /// Generate keys and the inner proof of the application circuit.
    ProveInner,
    /// Verify the inner proof inside the compression circuit and prove that.
    Compress,
    /// Generate the finalized proof and its batch artifact; emit the
    /// verifier program too where `emit_verifier` holds.
    Finalize { emit_verifier: bool },
    /// Nothing is left to do.
    Stop,
}

/// The pipeline's state: its stage, whether a verifier program is wanted,
/// and the failure that stopped it, if any.
#[derive(Clone, Copy, Debug)]
pub struct Pipeline {
    pub stage: Stage,
    pub emit_verifier: bool,
    pub error: Option<PipelineError>,
}

/// The stage that follows a successful one.
pub open spec fn next_stage(s: Stage) -> Stage {
    match s {
        Stage::Inner => Stage::Compression,
        Stage::Compression => Stage::Finalization,
        Stage::Finalization => Stage::Done,
        Stage::Done => Stage::Done,
        Stage::Failed => Stage::Failed,
    }
}

/// Whether the pipeline has stopped.
pub open spec fn is_terminal(s: Stage) -> bool {
    s == Stage::Done || s == Stage::Failed
}

/// The action a pipeline state calls for.
pub open spec fn action_of(p: Pipeline) -> Action {
    match p.stage {
        Stage::Inner => Action::ProveInner,
        Stage::Compression => Action::Compress,
        Stage::Finalization => Action::Finalize { emit_verifier: p.emit_verifier },
        _ => Action::Stop,
    }
}

/// The state after the current stage reports `outcome`: a success moves to
/// the next stage, a failure stops the pipeline with its error, and a
/// stopped pipeline stays as it is.
pub open spec fn step(p: Pipeline, outcome: Result<(), PipelineError>) -> Pipeline {
    if is_terminal(p.stage) {
        p
    } else {
        match outcome {
            Ok(()) => Pipeline { stage: next_stage(p.stage), ..p },
            Err(e) => Pipeline { stage: Stage::Failed, error: Some(e), ..p },
        }
    }
}

/// The state after a run of outcomes, one per stage, in order.
pub open spec fn run(p: Pipeline, outcomes: Seq<Result<(), PipelineError>>) -> Pipeline
    decreases outcomes.len(),
{
    if outcomes.len() == 0 {
        p
    } else {
        step(run(p, outcomes.drop_last()), outcomes.last())
    }
}

/// A fresh pipeline at the inner stage.
pub open spec fn fresh(emit_verifier: bool) -> Pipeline {
    Pipeline { stage: Stage::Inner, emit_verifier, error: None }
}

impl Pipeline {
    /// A pipeline at its inner stage, with no failure.
    pub fn new(emit_verifier: bool) -> (r: Pipeline)
        ensures
            r == fresh(emit_verifier),
    {
        Pipeline { stage: Stage::Inner, emit_verifier, error: None }
    }

    /// The action the current stage calls for.
    pub fn next_action(&self) -> (r: Action)
        ensures
            r == action_of(*self),
    {
        match self.stage {
            Stage::Inner => Action::ProveInner,
            Stage::Compression => Action::Compress,
            Stage::Finalization => Action::Finalize { emit_verifier: self.emit_verifier },
            _ => Action::Stop,
        }
    }

    /// Records the outcome of the current stage's action.
    pub fn advance(&mut self, outcome: Result<(), PipelineError>)
        ensures
            *final(self) == step(*old(self), outcome),
    {
        match self.stage {
            Stage::Done | Stage::Failed => {},
            _ => match outcome {
                Ok(()) => {
                    self.stage = match self.stage {
                        Stage::Inner => Stage::Compression,
                        Stage::Compression => Stage::Finalization,
                        _ => Stage::Done,
                    };
                },
                Err(e) => {
                    self.stage = Stage::Failed;
                    self.error = Some(e);
                },
            },
        }
    }

    /// Whether every stage has succeeded.
    pub fn is_done(&self) -> (r: bool)
        ensures
            r == (self.stage == Stage::Done),
    {
        match self.stage {
            Stage::Done => true,
            _ => false,
        }
    }
}

/// The outcome of the inner stage: the inner proof must have been generated,
/// then accepted by its verifier.
pub fn inner_prove(generated: Result<(), PipelineError>, verified: bool) -> (r: Result<
    (),
    PipelineError,
>)
    ensures
        r == match generated {
            Err(e) => Err(e),
            Ok(()) => if verified {
                Ok(())
            } else {
                Err(PipelineError::VerificationFailed)
            },
        },
{
    match generated {
        Err(e) => Err(e),
        Ok(()) => if verified {
            Ok(())
        } else {
            Err(PipelineError::VerificationFailed)
        },
    }
}

/// Stages run in order and none is skipped: a fresh pipeline is done after
/// three successes in a row, and after fewer it still has a stage to run.
pub proof fn lemma_stages_in_order(emit_verifier: bool)
    ensures
        run(fresh(emit_verifier), seq![Ok(())]).stage == Stage::Compression,
        run(fresh(emit_verifier), seq![Ok(()), Ok(())]).stage == Stage::Finalization,
        run(fresh(emit_verifier), seq![Ok(()), Ok(()), Ok(())]).stage == Stage::Done,
{
    reveal_with_fuel(run, 4);
    assert(seq![Ok(()), Ok(())].drop_last() =~= seq![Ok::<(), PipelineError>(())]);
    assert(seq![Ok(()), Ok(()), Ok(())].drop_last() =~= seq![Ok::<(), PipelineError>(()), Ok(())]);
    assert(seq![Ok::<(), PipelineError>(())].drop_last() =~= Seq::<Result<(), PipelineError>>::empty());
}

/// A failure is final: once a stage fails, no later outcome changes the
/// state, and the first error is the one kept.
pub proof fn lemma_failure_is_final(p: Pipeline, e: PipelineError, later: Seq<Result<(), PipelineError>>)
    requires
        !is_terminal(p.stage),
    ensures
        run(step(p, Err(e)), later) == step(p, Err(e)),
        step(p, Err(e)).error == Some(e),
    decreases later.len(),
{
    if later.len() > 0 {
        lemma_failure_is_final(p, e, later.drop_last());
    }
}

} // verus!
