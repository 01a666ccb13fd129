use oxid_os::console::Console;
use oxid_os::entry::advance;
use oxid_os::entry::BootStage;
use oxid_os::entry::RunMode;
use oxid_os::harness::report_panic;
use oxid_os::harness::test_runner;
use oxid_os::harness::trivial_assertion;
use oxid_os::harness::CaseOutcome;
use oxid_os::status::QemuExitCode;
use oxid_os::vga::Color;
use oxid_os::vga::ColorCode;

fn fresh_console() -> Console {
    Console::new(ColorCode::new(Color::LightGray, Color::Black))
}

#[test]
fn exit_code_wire_values() {
    assert_eq!(QemuExitCode::Success.code(), 0x10);
    assert_eq!(QemuExitCode::Failed.code(), 0x11);
}

#[test]
fn all_passing_cases_run_to_completion() {
    let mut c = fresh_console();
    let outcomes = vec![CaseOutcome::Passed, CaseOutcome::Passed, CaseOutcome::Passed];
    let (ran, status) = test_runner(&mut c, &outcomes);
    assert_eq!(ran, 3);
    assert_eq!(status, QemuExitCode::Success);
    assert_eq!(status.code(), 0x10);
    // The banner ("Running 3 tests" + newline) scrolled up one row.
    let banner = b"Running 3 tests";
    for (i, &b) in banner.iter().enumerate() {
        assert_eq!(c.cell(23, i).ascii_character, b);
    }
}

#[test]
fn faulting_case_stops_the_run() {
    let mut c = fresh_console();
    let outcomes = vec![CaseOutcome::Passed, CaseOutcome::Faulted, CaseOutcome::Passed];
    let (ran, status) = test_runner(&mut c, &outcomes);
    // Fail-fast: the case after the faulting one never executes.
    assert_eq!(ran, 2);
    assert_eq!(status, QemuExitCode::Failed);
    assert_eq!(status.code(), 0x11);
}

#[test]
fn empty_run_succeeds() {
    let mut c = fresh_console();
    let outcomes: Vec<CaseOutcome> = Vec::new();
    let (ran, status) = test_runner(&mut c, &outcomes);
    assert_eq!(ran, 0);
    assert_eq!(status, QemuExitCode::Success);
}

#[test]
fn panic_in_test_mode_signals_failure() {
    let mut c = fresh_console();
    let signal = report_panic(&mut c, RunMode::Test, b"panicked at 'oops'");
    assert_eq!(signal, Some(QemuExitCode::Failed));
    assert_eq!(c.cell(23, 0).ascii_character, b'p');
    // The message line ended with a newline, so the cursor is at column 0.
    assert_eq!(c.column(), 0);
}

#[test]
fn panic_in_normal_mode_only_prints() {
    let mut c = fresh_console();
    let signal = report_panic(&mut c, RunMode::Normal, b"panicked at 'oops'");
    assert_eq!(signal, None);
    assert_eq!(c.cell(23, 0).ascii_character, b'p');
}

#[test]
fn trivial_assertion_passes() {
    assert_eq!(trivial_assertion(), CaseOutcome::Passed);
}

#[test]
fn boot_flow_is_terminal_only() {
    let s1 = advance(BootStage::LoaderHandoff, RunMode::Test);
    assert_eq!(s1, BootStage::Diagnostics);
    let s2 = advance(s1, RunMode::Test);
    assert_eq!(s2, BootStage::Testing);
    let s3 = advance(s2, RunMode::Test);
    assert_eq!(s3, BootStage::IdleHalt);
    assert_eq!(advance(s3, RunMode::Test), BootStage::IdleHalt);
    // In normal mode the testing stage is skipped.
    assert_eq!(advance(BootStage::Diagnostics, RunMode::Normal), BootStage::IdleHalt);
}
