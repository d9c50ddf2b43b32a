//! The build chain: its stages, the steps of each stage, and the driver that
//! runs the steps in order and stops at the first failure.
//!
//! The driver does no work itself. It says which step is due; whoever runs
//! the step reports how it ended; then the driver says what is due next.
//! Every step leaves its results as files, so a build can be taken up again
//! at any stage.

use vstd::prelude::*;
use vstd::string::StringExecFns;

verus! {

/// The stages at which a build can start, in the order in which they run.
#[derive(Clone, Copy, Debug, PartialEq, Eq, Structural)]
pub enum BuildChain {
    /// Compiling the Rust sources to LLVM IR.
    Rust,
    /// Linking the IR of the modules into one file.
    Bundle,
    /// Transpiling the IR to C and repairing the C.
    LLVM,
    /// Compiling the C to assembly.
    C,
    /// Linking the assembly into the ROM image.
    ASM,
}

/// The steps of a build.
#[derive(Clone, Copy, Debug, PartialEq, Eq, Structural)]
pub enum Step {
    /// The Rust compiler.
    Cargo,
    /// The IR linker.
    LlvmLink,
    /// The transpiler from IR to C.
    LlvmCbe,
    /// Keeping a copy of the C file as the transpiler wrote it.
    KeepCopy,
    /// The rewriter that decodes attributes.
    Treesitter,
    /// The rule-driven rewriter.
    AstGrep,
    /// The C compiler.
    Sdcc,
    /// The linker of the ROM image.
    Lcc,
}

/// What the driver asks for.
#[derive(Clone, Copy, Debug, PartialEq, Eq, Structural)]
pub enum Action {
    /// Run this step and report how it ended.
    Run(Step),
    /// The build is done: end the process with this exit code, 0 after the
    /// last step succeeded and 1 after a step failed.
    Exit(u8),
}

/// All steps, in the order in which a full build runs them.
pub open spec fn all_steps() -> Seq<Step> {
    seq![
        Step::Cargo,
        Step::LlvmLink,
        Step::LlvmCbe,
        Step::KeepCopy,
        Step::Treesitter,
        Step::AstGrep,
        Step::Sdcc,
        Step::Lcc,
    ]
}

impl Step {
    /// The stage that the step belongs to.
    pub open spec fn stage_of(self) -> BuildChain {
        match self {
            Step::Cargo => BuildChain::Rust,
            Step::LlvmLink => BuildChain::Bundle,
            Step::LlvmCbe => BuildChain::LLVM,
            Step::KeepCopy => BuildChain::LLVM,
            Step::Treesitter => BuildChain::LLVM,
            Step::AstGrep => BuildChain::LLVM,
            Step::Sdcc => BuildChain::C,
            Step::Lcc => BuildChain::ASM,
        }
    }

    /// The place of the step among all steps, counted from 0.
    pub open spec fn position(self) -> int {
        match self {
            Step::Cargo => 0,
            Step::LlvmLink => 1,
            Step::LlvmCbe => 2,
            Step::KeepCopy => 3,
            Step::Treesitter => 4,
            Step::AstGrep => 5,
            Step::Sdcc => 6,
            Step::Lcc => 7,
        }
    }

    /// The stage that the step belongs to.
    pub fn stage(self) -> (stage: BuildChain)
        ensures
            stage == self.stage_of(),
    {
        match self {
            Step::Cargo => BuildChain::Rust,
            Step::LlvmLink => BuildChain::Bundle,
            Step::LlvmCbe => BuildChain::LLVM,
            Step::KeepCopy => BuildChain::LLVM,
            Step::Treesitter => BuildChain::LLVM,
            Step::AstGrep => BuildChain::LLVM,
            Step::Sdcc => BuildChain::C,
            Step::Lcc => BuildChain::ASM,
        }
    }

    /// The step at place `at` among all steps.
    pub fn at(at: usize) -> (step: Option<Step>)
        ensures
            at < all_steps().len() ==> step == Some(all_steps()[at as int]),
            at >= all_steps().len() ==> step is None,
    {
        match at {
            0 => Some(Step::Cargo),
            1 => Some(Step::LlvmLink),
            2 => Some(Step::LlvmCbe),
            3 => Some(Step::KeepCopy),
            4 => Some(Step::Treesitter),
            5 => Some(Step::AstGrep),
            6 => Some(Step::Sdcc),
            7 => Some(Step::Lcc),
            _ => None,
        }
    }
}

impl BuildChain {
    /// The place of the stage in the chain, counted from 0.
    pub open spec fn rank(self) -> int {
        match self {
            BuildChain::Rust => 0,
            BuildChain::Bundle => 1,
            BuildChain::LLVM => 2,
            BuildChain::C => 3,
            BuildChain::ASM => 4,
        }
    }

    /// The place among all steps of the first step of the stage.
    pub open spec fn first_step(self) -> int {
        match self {
            BuildChain::Rust => 0,
            BuildChain::Bundle => 1,
            BuildChain::LLVM => 2,
            BuildChain::C => 6,
            BuildChain::ASM => 7,
        }
    }

    /// The steps that a build from this stage runs: those of the stage and
    /// of every later one.
    pub open spec fn plan(self) -> Seq<Step> {
        all_steps().skip(self.first_step())
    }

    /// The steps that a build from this stage leaves out: those of every
    /// earlier stage.
    pub open spec fn skipped(self) -> Seq<Step> {
        all_steps().take(self.first_step())
    }

    /// The stage that `name` names: `rust`, `bundle`, `llvm`, `c` or `asm`,
    /// spelled exactly so.
    pub open spec fn named(name: Seq<char>) -> Option<BuildChain> {
        if name == "rust"@ {
            Some(BuildChain::Rust)
        } else if name == "bundle"@ {
            Some(BuildChain::Bundle)
        } else if name == "llvm"@ {
            Some(BuildChain::LLVM)
        } else if name == "c"@ {
            Some(BuildChain::C)
        } else if name == "asm"@ {
            Some(BuildChain::ASM)
        } else {
            None
        }
    }

    /// Reads the name of a stage; any other text is refused.
    pub fn from_str(name: &str) -> (stage: Result<BuildChain, ()>)
        ensures
            match BuildChain::named(name@) {
                Some(known) => stage == Ok::<BuildChain, ()>(known),
                None => stage is Err,
            },
    {
        let given = String::from_str(name);
        if given == String::from_str("rust") {
            Ok(BuildChain::Rust)
        } else if given == String::from_str("bundle") {
            Ok(BuildChain::Bundle)
        } else if given == String::from_str("llvm") {
            Ok(BuildChain::LLVM)
        } else if given == String::from_str("c") {
            Ok(BuildChain::C)
        } else if given == String::from_str("asm") {
            Ok(BuildChain::ASM)
        } else {
            Err(())
        }
    }

    /// The place of the stage in the chain, counted from 0.
    pub fn index(self) -> (rank: u8)
        ensures
            rank == self.rank(),
    {
        match self {
            BuildChain::Rust => 0,
            BuildChain::Bundle => 1,
            BuildChain::LLVM => 2,
            BuildChain::C => 3,
            BuildChain::ASM => 4,
        }
    }

    /// Tells whether a build that starts at `self` runs the steps of
    /// `stage`: it does unless `stage` comes earlier in the chain.
    pub fn reaches(self, stage: BuildChain) -> (runs: bool)
        ensures
            runs == (self.rank() <= stage.rank()),
    {
        self.index() <= stage.index()
    }

    /// The steps that a build from this stage runs, in order.
    pub fn steps(self) -> (steps: Vec<Step>)
        ensures
            steps@ == self.plan(),
    {
        let mut steps: Vec<Step> = Vec::new();
        let first: usize = match self {
            BuildChain::Rust => 0,
            BuildChain::Bundle => 1,
            BuildChain::LLVM => 2,
            BuildChain::C => 6,
            BuildChain::ASM => 7,
        };
        let mut at: usize = first;
        while at < 8
            invariant
                first <= at <= 8,
                first == self.first_step(),
                steps@ == all_steps().subrange(first as int, at as int),
            decreases 8 - at,
        {
            match Step::at(at) {
                Some(step) => {
                    steps.push(step);
                },
                None => {},
            }
            assert(steps@ =~= all_steps().subrange(first as int, at + 1));
            at += 1;
        }
        assert(steps@ =~= self.plan());
        steps
    }
}

/// The state of the data that the steps work on, after `steps` have run one
/// after the other from the state `start`, where `effect` says what one step
/// makes of a state.
pub open spec fn run_all<S>(effect: spec_fn(Step, S) -> S, steps: Seq<Step>, start: S) -> S
    decreases steps.len(),
{
    if steps.len() == 0 {
        start
    } else {
        run_all(effect, steps.skip(1), effect(steps[0], start))
    }
}

/// Running one list of steps and then another is running the two lists as
/// one.
pub proof fn lemma_run_all_joined<S>(
    effect: spec_fn(Step, S) -> S,
    first: Seq<Step>,
    second: Seq<Step>,
    start: S,
)
    ensures
        run_all(effect, first + second, start) == run_all(
            effect,
            second,
            run_all(effect, first, start),
        ),
    decreases first.len(),
{
    if first.len() == 0 {
        assert(first + second =~= second);
    } else {
        assert((first + second).skip(1) =~= first.skip(1) + second);
        assert((first + second)[0] == first[0]);
        lemma_run_all_joined(effect, first.skip(1), second, effect(first[0], start));
    }
}

/// A build from any stage runs exactly the steps that a full build runs
/// behind the ones it leaves out, in the same order.
pub proof fn lemma_plan_is_rest_of_full_build(from: BuildChain)
    ensures
        BuildChain::Rust.plan() == all_steps(),
        BuildChain::Rust.plan() == from.skipped() + from.plan(),
        forall|i: int|
            0 <= i < from.plan().len() ==> from.rank() <= (#[trigger] from.plan()[i]).stage_of().rank(),
        forall|i: int|
            0 <= i < from.skipped().len() ==> (#[trigger] from.skipped()[i]).stage_of().rank()
                < from.rank(),
{
    assert(all_steps().skip(0) =~= all_steps());
    assert(all_steps() =~= from.skipped() + from.plan());
}

/// Taking a build up again. Where the steps in front of the stage `from`
/// have run and left the state they leave in a full build, the build from
/// `from` ends in the state in which the full build ends, whatever the
/// steps do, as long as each does the same in both builds.
pub proof fn lemma_resumed_build_ends_alike<S>(
    effect: spec_fn(Step, S) -> S,
    from: BuildChain,
    start: S,
)
    ensures
        run_all(effect, from.plan(), run_all(effect, from.skipped(), start)) == run_all(
            effect,
            BuildChain::Rust.plan(),
            start,
        ),
{
    lemma_plan_is_rest_of_full_build(from);
    lemma_run_all_joined(effect, from.skipped(), from.plan(), start);
}

/// Failing fast. Once the due step is reported as failed, the driver asks
/// for the process to end with exit code 1, and whatever is reported after
/// that, it never asks for a step again.
pub proof fn lemma_failure_ends_the_build(
    before: Driver,
    failed: Driver,
    later: Driver,
    success: bool,
)
    requires
        before.due() is Run,
        before.after(failed, false),
        failed.after(later, success),
    ensures
        failed.due() == Action::Exit(1),
        later == failed,
        later.due() == Action::Exit(1),
{
}

/// The order of the steps. After a success the driver asks for the step
/// that follows the one that ran, or for exit code 0 where that was the
/// last.
pub proof fn lemma_success_moves_on(before: Driver, now: Driver)
    requires
        before.due() is Run,
        before.after(now, true),
    ensures
        now.remaining() == before.remaining().skip(1),
        before.remaining().len() == 1 ==> now.due() == Action::Exit(0),
        before.remaining().len() > 1 ==> now.due() == Action::Run(before.remaining()[1]),
{
}

/// The state of a build: which step is due, and whether a step has failed.
#[derive(Clone, Copy, Debug, PartialEq, Eq, Structural)]
pub struct Driver {
    next: usize,
    failed: bool,
}

impl Driver {
    /// The steps that are still to run: none once a step has failed.
    pub closed spec fn remaining(self) -> Seq<Step> {
        if self.failed || self.next > all_steps().len() {
            Seq::empty()
        } else {
            all_steps().skip(self.next as int)
        }
    }

    /// A step has failed.
    pub closed spec fn has_failed(self) -> bool {
        self.failed
    }

    /// What the driver asks for in this state.
    pub open spec fn due(self) -> Action {
        if self.has_failed() {
            Action::Exit(1)
        } else if self.remaining().len() == 0 {
            Action::Exit(0)
        } else {
            Action::Run(self.remaining()[0])
        }
    }

    /// The state after the due step was reported: a success moves on to the
    /// next step, a failure ends the build, and in a finished build a report
    /// changes nothing.
    pub open spec fn after(self, now: Driver, success: bool) -> bool {
        if self.has_failed() || self.remaining().len() == 0 {
            now == self
        } else if success {
            !now.has_failed() && now.remaining() == self.remaining().skip(1)
        } else {
            now.has_failed() && now.remaining() == Seq::<Step>::empty()
        }
    }

    /// The driver of a build that starts at the stage `from`.
    pub fn new(from: BuildChain) -> (driver: Driver)
        ensures
            !driver.has_failed(),
            driver.remaining() == from.plan(),
    {
        let first: usize = match from {
            BuildChain::Rust => 0,
            BuildChain::Bundle => 1,
            BuildChain::LLVM => 2,
            BuildChain::C => 6,
            BuildChain::ASM => 7,
        };
        Driver { next: first, failed: false }
    }

    /// What is due: the next step, or the end of the process.
    pub fn action(&self) -> (action: Action)
        ensures
            action == self.due(),
    {
        if self.failed {
            return Action::Exit(1);
        }
        match Step::at(self.next) {
            Some(step) => {
                assert(self.remaining()[0] == all_steps()[self.next as int]);
                Action::Run(step)
            },
            None => {
                assert(self.remaining().len() == 0);
                Action::Exit(0)
            },
        }
    }

    /// Takes the report on the due step.
    pub fn report(&mut self, success: bool)
        ensures
            old(self).after(*final(self), success),
    {
        if self.failed || self.next >= 8 {
            return ;
        }
        if success {
            assert(all_steps().skip(self.next as int).skip(1) =~= all_steps().skip(self.next + 1));
            self.next = self.next + 1;
        } else {
            self.failed = true;
        }
    }
}

} // verus!
