//! Command lines and contained worker processes.
use scanner_core::windows_job::{
    append_quoted_argument, build_command_line, duration_to_wait_ms, observed_peak, ProcessError,
    ProcessFacts, ProcessFailure, ProcessStep, WaitResult,
};

fn wide(text: &str) -> Vec<u16> {
    text.encode_utf16().collect()
}

fn quoted(argument: &str) -> String {
    let mut target = Vec::new();
    append_quoted_argument(&mut target, &wide(argument));
    String::from_utf16(&target).unwrap()
}

#[test]
fn arguments_are_quoted_as_windows_reads_them() {
    assert_eq!(quoted("plain"), "plain");
    assert_eq!(quoted(""), "\"\"");
    assert_eq!(quoted("two words"), "\"two words\"");
    assert_eq!(quoted("tab\there"), "\"tab\there\"");
    assert_eq!(quoted("say \"hi\""), "\"say \\\"hi\\\"\"");
    assert_eq!(quoted("ends with \\"), "\"ends with \\\\\"");
    assert_eq!(quoted("a\\b"), "a\\b");
    assert_eq!(quoted("a\\\"b"), "\"a\\\\\\\"b\"");
}

#[test]
fn command_lines_are_parted_by_blanks() {
    let command = build_command_line(
        &wide("C:\\Program Files\\w.exe"),
        &vec![wide("--flag"), wide("x y")],
    );
    let mut text = String::from_utf16(&command).unwrap();
    if text.ends_with('\0') {
        text.pop();
    }
    assert_eq!(text, "\"C:\\Program Files\\w.exe\" --flag \"x y\"");
}

#[test]
fn waits_are_rounded_and_bounded() {
    assert_eq!(duration_to_wait_ms(250), 250);
    assert!(duration_to_wait_ms(u128::MAX) < u32::MAX);
}

/// Runs a process whose steps answer as the facts that are given.
fn run(answers: &ProcessFacts) -> (Vec<ProcessStep>, ProcessStep) {
    let mut facts = ProcessFacts::new();
    let mut steps = Vec::new();
    for _ in 0..32 {
        let step = facts.next_step();
        match step {
            ProcessStep::CreateJob => facts.job_ready = answers.job_ready,
            ProcessStep::CreatePipes => facts.pipes_ready = answers.pipes_ready,
            ProcessStep::ListHandles => facts.handles_listed = answers.handles_listed,
            ProcessStep::CreateProcess => facts.created = answers.created,
            ProcessStep::TakeProcess => facts.process_handle = answers.process_handle,
            ProcessStep::TakeThread => facts.thread_handle = answers.thread_handle,
            ProcessStep::Assign => facts.assigned = answers.assigned,
            ProcessStep::Resume => facts.resumed = answers.resumed,
            ProcessStep::Wait => facts.waited = answers.waited,
            ProcessStep::ReadExitCode => facts.exit_code_read = answers.exit_code_read,
            ProcessStep::CountActive => facts.active = answers.active,
            ProcessStep::ClearJob => facts.cleared = answers.cleared,
            ProcessStep::StopProcess | ProcessStep::StopJob => facts.stopped = answers.stopped,
            ProcessStep::FinishWriting => facts.written = answers.written,
            ProcessStep::FinishReading => facts.read = answers.read,
            ProcessStep::Fail(_) | ProcessStep::Succeed => return (steps, step),
        }
        steps.push(step);
    }
    panic!("the process never ended")
}

fn all_well() -> ProcessFacts {
    ProcessFacts {
        job_ready: Some(true),
        pipes_ready: Some(true),
        handles_listed: Some(true),
        created: Some(true),
        process_handle: Some(true),
        thread_handle: Some(true),
        assigned: Some(true),
        resumed: Some(true),
        waited: Some(WaitResult::Signaled),
        exit_code_read: Some(true),
        active: Some(Some(0)),
        cleared: Some(true),
        stopped: Some(true),
        written: Some(true),
        read: Some(true),
    }
}

#[test]
fn workers_succeed_inside_their_job() {
    let (steps, end) = run(&all_well());
    assert_eq!(end, ProcessStep::Succeed);
    let at = |step: ProcessStep| steps.iter().position(|s| *s == step).unwrap();
    assert!(at(ProcessStep::Assign) < at(ProcessStep::Resume));
    assert!(!steps.contains(&ProcessStep::StopProcess));
}

#[test]
fn a_worker_that_cannot_be_contained_is_stopped() {
    let mut facts = all_well();
    facts.assigned = Some(false);
    let (steps, end) = run(&facts);
    assert!(steps.contains(&ProcessStep::StopProcess));
    assert!(!steps.contains(&ProcessStep::Resume));
    assert!(matches!(
        end,
        ProcessStep::Fail(ProcessFailure {
            error: ProcessError::ContainmentFailed,
            ..
        })
    ));
}

#[test]
fn a_worker_that_runs_too_long_is_stopped() {
    let mut facts = all_well();
    facts.waited = Some(WaitResult::TimedOut);
    let (steps, end) = run(&facts);
    assert!(steps.contains(&ProcessStep::StopJob));
    assert_eq!(
        end,
        ProcessStep::Fail(ProcessFailure {
            error: ProcessError::TimedOut,
            started: true
        })
    );
}

#[test]
fn a_worker_that_was_never_made_did_not_start() {
    let mut facts = all_well();
    facts.created = Some(false);
    let (_, end) = run(&facts);
    assert!(matches!(
        end,
        ProcessStep::Fail(ProcessFailure { started: false, .. })
    ));
    let mut facts = all_well();
    facts.job_ready = Some(false);
    let (steps, end) = run(&facts);
    assert_eq!(steps, vec![ProcessStep::CreateJob]);
    assert!(matches!(
        end,
        ProcessStep::Fail(ProcessFailure { started: false, .. })
    ));
}

#[test]
fn peaks_are_told_of_contained_workers() {
    assert_eq!(observed_peak(false, false, Some(5)), None);
    assert_eq!(observed_peak(true, true, Some(5)), Some(Some(5)));
    assert_eq!(observed_peak(true, true, None), Some(None));
}
