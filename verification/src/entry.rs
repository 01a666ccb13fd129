//! The entry-point flow: the run-mode configuration chosen at startup and
//! the terminal-only boot stage machine the entry function walks through.

use vstd::prelude::*;

verus! {

/// Whether this run executes the test harness (test configuration) or
/// boots normally. Chosen once at startup and never changed.
#[derive(Debug, Clone, Copy, PartialEq, Eq, Structural)]
pub enum RunMode {
    Normal,
    Test,
}

/// The stages the entry point passes through: loader hand-off, diagnostic
/// printing, optional test execution, and the final infinite halt.
#[derive(Debug, Clone, Copy, PartialEq, Eq, Structural)]
pub enum BootStage {
    LoaderHandoff,
    Diagnostics,
    Testing,
    IdleHalt,
}

/// The next stage after one step of the entry flow: diagnostics follow
/// the hand-off, tests run only in test configuration, and everything
/// ends in the idle halt.
pub open spec fn spec_advance(stage: BootStage, mode: RunMode) -> BootStage {
    match stage {
        BootStage::LoaderHandoff => BootStage::Diagnostics,
        BootStage::Diagnostics => if mode == RunMode::Test {
            BootStage::Testing
        } else {
            BootStage::IdleHalt
        },
        BootStage::Testing => BootStage::IdleHalt,
        BootStage::IdleHalt => BootStage::IdleHalt,
    }
}

/// Takes one step of the entry flow.
pub fn advance(stage: BootStage, mode: RunMode) -> (next: BootStage)
    ensures
        next == spec_advance(stage, mode),
{
    match stage {
        BootStage::LoaderHandoff => BootStage::Diagnostics,
        BootStage::Diagnostics => {
            if mode == RunMode::Test {
                BootStage::Testing
            } else {
                BootStage::IdleHalt
            }
        },
        BootStage::Testing => BootStage::IdleHalt,
        BootStage::IdleHalt => BootStage::IdleHalt,
    }
}

/// The flow is terminal-only: no step from any stage, in either mode,
/// returns control to the loader hand-off.
pub proof fn lemma_no_return_to_handoff(stage: BootStage, mode: RunMode)
    ensures
        spec_advance(stage, mode) != BootStage::LoaderHandoff,
{
}

/// The idle halt is absorbing: once reached, every further step stays
/// there — the process makes no further progress.
pub proof fn lemma_idle_halt_absorbing(mode: RunMode)
    ensures
        spec_advance(BootStage::IdleHalt, mode) == BootStage::IdleHalt,
{
}

} // verus!
