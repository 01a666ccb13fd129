//! The test harness and the panic/test-report protocol: run the collected
//! test cases in order, fail fast on the first fault, and report the
//! run's outcome as an exit status the host environment can read.

use vstd::prelude::*;

use crate::console::Console;
use crate::entry::RunMode;
use crate::fmt::dec_digits;
use crate::fmt::fmt_dec;
use crate::status::QemuExitCode;
use crate::status::spec_code;
use crate::vga::lemma_write_bytes_snoc;
use crate::vga::spec_write_bytes;
use crate::vga::NEWLINE_BYTE;

verus! {

/// How one test case ended: it returned normally, or it faulted (an
/// assertion failure or any other unrecoverable fault, both routed to the
/// panic handler and reported identically).
#[derive(Debug, Clone, Copy, PartialEq, Eq, Structural)]
pub enum CaseOutcome {
    Passed,
    Faulted,
}

/// Every case of the run returned normally.
pub open spec fn all_pass(outcomes: Seq<CaseOutcome>) -> bool {
    forall|i: int| 0 <= i < outcomes.len() ==> outcomes[i] == CaseOutcome::Passed
}

/// How many cases a fail-fast run executes: every case up to and
/// including the first faulting one, or all of them.
pub open spec fn executed_count(outcomes: Seq<CaseOutcome>) -> int
    decreases outcomes.len(),
{
    if outcomes.len() == 0 {
        0
    } else if outcomes[0] == CaseOutcome::Faulted {
        1
    } else {
        1 + executed_count(outcomes.drop_first())
    }
}

/// The exit status of a run: success exactly when every case passed.
pub open spec fn run_status(outcomes: Seq<CaseOutcome>) -> QemuExitCode {
    if all_pass(outcomes) {
        QemuExitCode::Success
    } else {
        QemuExitCode::Failed
    }
}

/// The banner printed before the cases run: `Running <n> tests` and a
/// newline.
pub open spec fn running_banner(n: nat) -> Seq<u8> {
    seq![0x52u8, 0x75, 0x6e, 0x6e, 0x69, 0x6e, 0x67, 0x20] + dec_digits(n) + seq![
        0x20u8,
        0x74,
        0x65,
        0x73,
        0x74,
        0x73,
        NEWLINE_BYTE,
    ]
}

proof fn lemma_executed_count_all(outcomes: Seq<CaseOutcome>)
    requires
        all_pass(outcomes),
    ensures
        executed_count(outcomes) == outcomes.len(),
    decreases outcomes.len(),
{
    if outcomes.len() > 0 {
        assert(outcomes[0] == CaseOutcome::Passed);
        assert(forall|i: int|
            0 <= i < outcomes.drop_first().len() ==> outcomes.drop_first()[i] == outcomes[i + 1]);
        lemma_executed_count_all(outcomes.drop_first());
    }
}

proof fn lemma_executed_count_at_fault(outcomes: Seq<CaseOutcome>, i: int)
    requires
        0 <= i < outcomes.len(),
        forall|j: int| 0 <= j < i ==> outcomes[j] == CaseOutcome::Passed,
        outcomes[i] == CaseOutcome::Faulted,
    ensures
        executed_count(outcomes) == i + 1,
    decreases i,
{
    if i == 0 {
    } else {
        assert(outcomes[0] == CaseOutcome::Passed);
        assert(forall|j: int|
            0 <= j < outcomes.drop_first().len() ==> outcomes.drop_first()[j] == outcomes[j + 1]);
        lemma_executed_count_at_fault(outcomes.drop_first(), i - 1);
    }
}

/// A run whose cases all return normally executes every one of them —
/// with `n` cases, exactly `n` executions — and reports the success exit
/// status, whose wire code is 0x10.
pub proof fn lemma_all_pass_reports_success(outcomes: Seq<CaseOutcome>)
    requires
        all_pass(outcomes),
    ensures
        executed_count(outcomes) == outcomes.len(),
        run_status(outcomes) == QemuExitCode::Success,
        spec_code(run_status(outcomes)) == 0x10,
{
    lemma_executed_count_all(outcomes);
}

/// A faulting case ends the run: when every case before `i` passes and
/// case `i` faults, the failure exit status with wire code 0x11 is
/// reported and only the cases up to and including `i` execute — none
/// after the faulting one.
pub proof fn lemma_fault_stops_run(outcomes: Seq<CaseOutcome>, i: int)
    requires
        0 <= i < outcomes.len(),
        forall|j: int| 0 <= j < i ==> outcomes[j] == CaseOutcome::Passed,
        outcomes[i] == CaseOutcome::Faulted,
    ensures
        executed_count(outcomes) == i + 1,
        run_status(outcomes) == QemuExitCode::Failed,
        spec_code(run_status(outcomes)) == 0x11,
{
    lemma_executed_count_at_fault(outcomes, i);
    assert(!all_pass(outcomes));
}

/// Runs the collected test cases: prints the banner with the total count,
/// then walks the cases in list order and stops at the first fault.
/// Returns how many cases executed and the exit status owed for the run.
pub fn test_runner(con: &mut Console, outcomes: &Vec<CaseOutcome>) -> (r: (usize, QemuExitCode))
    requires
        old(con).wf(),
    ensures
        final(con).wf(),
        final(con)@ == spec_write_bytes(old(con)@, running_banner(outcomes@.len() as nat)),
        r.0 as int == executed_count(outcomes@),
        r.1 == run_status(outcomes@),
{
    let mut banner: Vec<u8> = Vec::new();
    banner.push(0x52);
    banner.push(0x75);
    banner.push(0x6e);
    banner.push(0x6e);
    banner.push(0x69);
    banner.push(0x6e);
    banner.push(0x67);
    banner.push(0x20);
    let mut digits = fmt_dec(outcomes.len());
    banner.append(&mut digits);
    banner.push(0x20);
    banner.push(0x74);
    banner.push(0x65);
    banner.push(0x73);
    banner.push(0x74);
    banner.push(0x73);
    banner.push(NEWLINE_BYTE);
    proof {
        assert(banner@ =~= running_banner(outcomes@.len() as nat));
    }
    con.print(banner.as_slice());
    let mut i: usize = 0;
    while i < outcomes.len()
        invariant
            i <= outcomes@.len(),
            forall|j: int| 0 <= j < i ==> outcomes@[j] == CaseOutcome::Passed,
            con.wf(),
            con@ == spec_write_bytes(old(con)@, running_banner(outcomes@.len() as nat)),
        decreases outcomes@.len() - i,
    {
        if outcomes[i] == CaseOutcome::Faulted {
            proof {
                lemma_fault_stops_run(outcomes@, i as int);
            }
            return (i + 1, QemuExitCode::Failed);
        }
        i += 1;
    }
    proof {
        lemma_all_pass_reports_success(outcomes@);
    }
    (i, QemuExitCode::Success)
}

/// Reports a panic payload: prints the message and a newline through the
/// output port, and — in the test configuration only — hands back the
/// failure status owed to the exit signal port, so an uncaught fault
/// becomes an externally observable test failure instead of a silent
/// hang.
pub fn report_panic(con: &mut Console, mode: RunMode, message: &[u8]) -> (signal: Option<
    QemuExitCode,
>)
    requires
        old(con).wf(),
    ensures
        final(con).wf(),
        final(con)@ == spec_write_bytes(old(con)@, message@.push(NEWLINE_BYTE)),
        signal == (if mode == RunMode::Test {
            Some(QemuExitCode::Failed)
        } else {
            None::<QemuExitCode>
        }),
{
    con.print(message);
    con.print_byte(NEWLINE_BYTE);
    proof {
        lemma_write_bytes_snoc(old(con)@, message@, NEWLINE_BYTE);
    }
    match mode {
        RunMode::Test => Some(QemuExitCode::Failed),
        RunMode::Normal => None,
    }
}

/// The smallest self-contained test case: checks a trivially true
/// equality and returns normally.
pub fn trivial_assertion() -> (r: CaseOutcome)
    ensures
        r == CaseOutcome::Passed,
{
    let lhs: u64 = 1;
    let rhs: u64 = 1;
    assert(lhs == rhs);
    CaseOutcome::Passed
}

} // verus!
