//! The order of the build: four steps, one after the other, each of which
//! either hands on to the next or ends the build.

use vstd::prelude::*;
use crate::error::GeneratorError;

verus! {

/// A step of the build.
#[derive(Clone, Copy, Debug, PartialEq, Eq, Structural)]
pub enum Step {
    /// Find the shared library.
    Discover,
    /// List its exports.
    Extract,
    /// Write the module definition.
    Write,
    /// Build the import library.
    Build,
}

/// Where the build stands after a step.
#[derive(Clone, Copy, Debug, PartialEq, Eq, Structural)]
pub enum Progress {
    /// The given step is to be taken next.
    Run(Step),
    /// All steps are done.
    Finished,
    /// The build has been given up.
    Aborted(GeneratorError),
}

/// The place of `step` in the order of the build, from zero.
pub open spec fn rank(step: Step) -> nat {
    match step {
        Step::Discover => 0,
        Step::Extract => 1,
        Step::Write => 2,
        Step::Build => 3,
    }
}

/// Whether `step` writes a file into the build directory.
pub open spec fn writes_file(step: Step) -> bool {
    step is Write || step is Build
}

/// What follows `step` where it has succeeded.
pub open spec fn successor(step: Step) -> Progress {
    match step {
        Step::Discover => Progress::Run(Step::Extract),
        Step::Extract => Progress::Run(Step::Write),
        Step::Write => Progress::Run(Step::Build),
        Step::Build => Progress::Finished,
    }
}

/// Where the build stands once `step` has ended with `outcome`.
pub open spec fn progress_after(step: Step, outcome: Result<(), GeneratorError>) -> Progress {
    match outcome {
        Ok(_) => successor(step),
        Err(e) => Progress::Aborted(e),
    }
}

/// Where the build stands after the steps from `step` on have ended with
/// `outcomes`, one for each step taken; outcomes beyond the end of the
/// build are not looked at.
pub open spec fn progress_through(step: Step, outcomes: Seq<Result<(), GeneratorError>>) -> Progress
    decreases outcomes.len(),
{
    if outcomes.len() == 0 {
        Progress::Run(step)
    } else {
        match progress_after(step, outcomes[0]) {
            Progress::Run(next) => progress_through(next, outcomes.drop_first()),
            ended => ended,
        }
    }
}

/// The step with which the build begins.
pub fn first_step() -> (r: Step)
    ensures
        r == Step::Discover,
{
    Step::Discover
}

/// Tells whether `step` writes a file into the build directory.
pub fn step_writes_file(step: Step) -> (r: bool)
    ensures
        r == writes_file(step),
{
    match step {
        Step::Discover => false,
        Step::Extract => false,
        Step::Write => true,
        Step::Build => true,
    }
}

/// Decides how the build goes on once `step` has ended with `outcome`: a
/// failure ends it, a success leads to the next step or to the end.
pub fn advance(step: Step, outcome: Result<(), GeneratorError>) -> (r: Progress)
    ensures
        r == progress_after(step, outcome),
{
    match outcome {
        Ok(_) => match step {
            Step::Discover => Progress::Run(Step::Extract),
            Step::Extract => Progress::Run(Step::Write),
            Step::Write => Progress::Run(Step::Build),
            Step::Build => Progress::Finished,
        },
        Err(e) => Progress::Aborted(e),
    }
}

/// Every failure ends the build with that failure, whatever the step: none
/// is tried again and none is passed over.
pub proof fn lemma_failure_aborts(step: Step, e: GeneratorError)
    ensures
        progress_after(step, Err(e)) == Progress::Aborted(e),
{
}

/// The steps follow each other in one fixed order, without a branch.
pub proof fn lemma_steps_are_linear(step: Step)
    ensures
        match successor(step) {
            Progress::Run(next) => rank(next) == rank(step) + 1,
            Progress::Finished => rank(step) == 3,
            Progress::Aborted(_) => false,
        },
{
}

/// Four successes in a row, from the first step on, finish the build.
pub proof fn lemma_four_successes_finish(outcomes: Seq<Result<(), GeneratorError>>)
    requires
        outcomes.len() == 4,
        forall|i: int| 0 <= i < 4 ==> (#[trigger] outcomes[i]) is Ok,
    ensures
        progress_through(Step::Discover, outcomes) == Progress::Finished,
{
    let a = outcomes.drop_first();
    let b = a.drop_first();
    let c = b.drop_first();
    assert(outcomes[0] is Ok && a[0] is Ok && b[0] is Ok && c[0] is Ok);
    assert(c.drop_first().len() == 0);
    reveal_with_fuel(progress_through, 5);
}

/// Where finding the shared library fails, the build is given up before
/// any step that writes a file is taken.
pub proof fn lemma_failed_discovery_writes_nothing(
    e: GeneratorError,
    later: Seq<Result<(), GeneratorError>>,
)
    ensures
        !writes_file(Step::Discover),
        progress_through(Step::Discover, seq![Err::<(), GeneratorError>(e)] + later)
            == Progress::Aborted(e),
{
    let outcomes = seq![Err::<(), GeneratorError>(e)] + later;
    assert(outcomes[0] == Err::<(), GeneratorError>(e));
}

/// A step that writes a file is taken only after the shared library was
/// found and its exports were listed.
pub proof fn lemma_files_are_written_late(step: Step)
    requires
        writes_file(step),
    ensures
        rank(step) >= 2,
{
}

} // verus!
