use blog_os::runner::{
    panic_response, runner_step, ExecutionMode, HarnessAction, QemuExitCode, RunnerEvent,
    RunnerState,
};

#[test]
fn exit_code_values() {
    assert_eq!(QemuExitCode::Success.value(), 0x10);
    assert_eq!(QemuExitCode::Failed.value(), 0x11);
}

#[test]
fn second_test_panics_and_run_stops() {
    let s0 = RunnerState::Ready { total: 2 };
    let (s1, a1) = runner_step(s0, RunnerEvent::Start);
    assert_eq!(a1, vec![HarnessAction::ReportCount(2), HarnessAction::RunTest(0)]);
    assert_eq!(s1, RunnerState::Running { total: 2, current: 0 });
    let (s2, a2) = runner_step(s1, RunnerEvent::TestReturned);
    assert_eq!(a2, vec![HarnessAction::ReportOk(0), HarnessAction::RunTest(1)]);
    let (s3, a3) = runner_step(s2, RunnerEvent::TestPanicked);
    assert_eq!(
        a3,
        vec![HarnessAction::ReportFailure, HarnessAction::Exit(QemuExitCode::Failed)]
    );
    assert_eq!(s3, RunnerState::Finished { code: QemuExitCode::Failed });
    let (s4, a4) = runner_step(s3, RunnerEvent::TestReturned);
    assert!(a4.is_empty());
    assert_eq!(s4, s3);
}

#[test]
fn all_tests_pass_then_success() {
    let (s1, _) = runner_step(RunnerState::Ready { total: 2 }, RunnerEvent::Start);
    let (s2, _) = runner_step(s1, RunnerEvent::TestReturned);
    let (s3, a3) = runner_step(s2, RunnerEvent::TestReturned);
    assert_eq!(a3, vec![HarnessAction::ReportOk(1), HarnessAction::Exit(QemuExitCode::Success)]);
    assert_eq!(s3, RunnerState::Finished { code: QemuExitCode::Success });
}

#[test]
fn empty_run_succeeds_at_once() {
    let (s, a) = runner_step(RunnerState::Ready { total: 0 }, RunnerEvent::Start);
    assert_eq!(a, vec![HarnessAction::ReportCount(0), HarnessAction::Exit(QemuExitCode::Success)]);
    assert_eq!(s, RunnerState::Finished { code: QemuExitCode::Success });
}

#[test]
fn result_before_start_does_nothing() {
    let s = RunnerState::Ready { total: 3 };
    let (s1, a) = runner_step(s, RunnerEvent::TestPanicked);
    assert!(a.is_empty());
    assert_eq!(s1, s);
}

#[test]
fn panic_response_by_mode() {
    assert_eq!(panic_response(ExecutionMode::Normal), vec![HarnessAction::DisplayPanic]);
    assert_eq!(
        panic_response(ExecutionMode::Test),
        vec![HarnessAction::ReportFailure, HarnessAction::Exit(QemuExitCode::Failed)]
    );
}
