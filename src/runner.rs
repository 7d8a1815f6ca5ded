//! Decisions of the in-kernel test harness and of the panic path, as a state
//! machine: the caller performs each action and reports what happened.
use vstd::prelude::*;

verus! {

/// The diagnostic I/O port that the hosting emulator watches for an exit status.
pub const ISA_DEBUG_EXIT_PORT: u16 = 0xf4;

/// Status handed to the hosting emulator.
#[derive(Debug, Clone, Copy, PartialEq, Eq, Structural)]
pub enum QemuExitCode {
    Success,
    Failed,
}

/// The number written to the diagnostic port for each status.
pub open spec fn exit_value(code: QemuExitCode) -> u32 {
    match code {
        QemuExitCode::Success => 0x10,
        QemuExitCode::Failed => 0x11,
    }
}

impl QemuExitCode {
    /// The number written to the diagnostic port.
    pub fn value(self) -> (r: u32)
        ensures
            r == exit_value(self),
    {
        match self {
            QemuExitCode::Success => 0x10,
            QemuExitCode::Failed => 0x11,
        }
    }
}

/// Whether a panic is reported on the display (normal run) or on the
/// diagnostic channel with a failure status (test run).
#[derive(Debug, Clone, Copy, PartialEq, Eq, Structural)]
pub enum ExecutionMode {
    Normal,
    Test,
}

/// Progress of a test run over `total` registered tests.
#[derive(Debug, Clone, Copy, PartialEq, Eq, Structural)]
pub enum RunnerState {
    /// Nothing has run yet.
    Ready { total: usize },
    /// Test number `current` (counted from 0) is running.
    Running { total: usize, current: usize },
    /// The run is over and `code` was signalled; nothing more happens.
    Finished { code: QemuExitCode },
}

/// What happened since the last step.
#[derive(Debug, Clone, Copy, PartialEq, Eq, Structural)]
pub enum RunnerEvent {
    /// The run begins.
    Start,
    /// The running test returned normally.
    TestReturned,
    /// The running test panicked.
    TestPanicked,
}

/// Work for the caller, in order.
#[derive(Debug, Clone, Copy, PartialEq, Eq, Structural)]
pub enum HarnessAction {
    /// Report on the diagnostic channel how many tests will run.
    ReportCount(usize),
    /// Run the test with this index.
    RunTest(usize),
    /// Report on the diagnostic channel that the test with this index passed.
    ReportOk(usize),
    /// Report on the diagnostic channel a failure marker and the panic message.
    ReportFailure,
    /// Render the panic message on the display.
    DisplayPanic,
    /// Write the status to the diagnostic port.
    Exit(QemuExitCode),
}

/// The state after `event` in `state`.
pub open spec fn next_state(state: RunnerState, event: RunnerEvent) -> RunnerState {
    match (state, event) {
        (RunnerState::Ready { total }, RunnerEvent::Start) => if total == 0 {
            RunnerState::Finished { code: QemuExitCode::Success }
        } else {
            RunnerState::Running { total, current: 0 }
        },
        (RunnerState::Running { total, current }, RunnerEvent::TestReturned) => if current + 1
            < total {
            RunnerState::Running { total, current: (current + 1) as usize }
        } else {
            RunnerState::Finished { code: QemuExitCode::Success }
        },
        (RunnerState::Running { total, current }, RunnerEvent::TestPanicked) => RunnerState::Finished {
            code: QemuExitCode::Failed,
        },
        _ => state,
    }
}

/// The actions that `event` in `state` calls for, in order. An event that does
/// not fit the state (a test result before the start, anything after the end)
/// calls for nothing and changes nothing.
pub open spec fn step_actions(state: RunnerState, event: RunnerEvent) -> Seq<HarnessAction> {
    match (state, event) {
        (RunnerState::Ready { total }, RunnerEvent::Start) => if total == 0 {
            seq![HarnessAction::ReportCount(0), HarnessAction::Exit(QemuExitCode::Success)]
        } else {
            seq![HarnessAction::ReportCount(total), HarnessAction::RunTest(0)]
        },
        (RunnerState::Running { total, current }, RunnerEvent::TestReturned) => if current + 1
            < total {
            seq![HarnessAction::ReportOk(current), HarnessAction::RunTest((current + 1) as usize)]
        } else {
            seq![HarnessAction::ReportOk(current), HarnessAction::Exit(QemuExitCode::Success)]
        },
        (RunnerState::Running { total, current }, RunnerEvent::TestPanicked) => panic_actions(
            ExecutionMode::Test,
        ),
        _ => seq![],
    }
}

/// What the panic path does before halting for good.
pub open spec fn panic_actions(mode: ExecutionMode) -> Seq<HarnessAction> {
    match mode {
        ExecutionMode::Normal => seq![HarnessAction::DisplayPanic],
        ExecutionMode::Test => seq![
            HarnessAction::ReportFailure,
            HarnessAction::Exit(QemuExitCode::Failed),
        ],
    }
}

/// The panic path's actions in `mode`; after them the caller halts forever.
pub fn panic_response(mode: ExecutionMode) -> (r: Vec<HarnessAction>)
    ensures
        r@ == panic_actions(mode),
{
    match mode {
        ExecutionMode::Normal => vec![HarnessAction::DisplayPanic],
        ExecutionMode::Test => vec![
            HarnessAction::ReportFailure,
            HarnessAction::Exit(QemuExitCode::Failed),
        ],
    }
}

/// One step of the test runner: the next state and the actions to perform.
/// Tests run strictly in order; the first panic ends the run with `Failed`;
/// when every test has returned the run ends with `Success`.
pub fn runner_step(state: RunnerState, event: RunnerEvent) -> (r: (RunnerState, Vec<HarnessAction>))
    ensures
        r.0 == next_state(state, event),
        r.1@ == step_actions(state, event),
{
    match state {
        RunnerState::Ready { total } => match event {
            RunnerEvent::Start => if total == 0 {
                (
                    RunnerState::Finished { code: QemuExitCode::Success },
                    vec![HarnessAction::ReportCount(0), HarnessAction::Exit(QemuExitCode::Success)],
                )
            } else {
                (
                    RunnerState::Running { total, current: 0 },
                    vec![HarnessAction::ReportCount(total), HarnessAction::RunTest(0)],
                )
            },
            _ => (state, Vec::new()),
        },
        RunnerState::Running { total, current } => match event {
            RunnerEvent::TestReturned => if current < total && total - current > 1 {
                let next = current + 1;
                (
                    RunnerState::Running { total, current: next },
                    vec![HarnessAction::ReportOk(current), HarnessAction::RunTest(next)],
                )
            } else {
                (
                    RunnerState::Finished { code: QemuExitCode::Success },
                    vec![HarnessAction::ReportOk(current), HarnessAction::Exit(QemuExitCode::Success)],
                )
            },
            RunnerEvent::TestPanicked => (
                RunnerState::Finished { code: QemuExitCode::Failed },
                panic_response(ExecutionMode::Test),
            ),
            RunnerEvent::Start => (state, Vec::new()),
        },
        RunnerState::Finished { .. } => (state, Vec::new()),
    }
}

/// Once a run is finished, no event runs another test or signals again.
pub proof fn lemma_finished_is_final(code: QemuExitCode, event: RunnerEvent)
    ensures
        next_state(RunnerState::Finished { code }, event) == (RunnerState::Finished { code }),
        step_actions(RunnerState::Finished { code }, event) == Seq::<HarnessAction>::empty(),
{
}

} // verus!
