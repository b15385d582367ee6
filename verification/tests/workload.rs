use temper::cargo::StreamRead;
use temper::interposition::variable;
use temper::workload::{
    canonical_candidate, captured_diagnostics, finish_invocation, process_group,
    redact_environment_lines, terminate_process_group, CandidateFile, CapturedStream, ChildStatus,
    Completion, ConfirmationRun, ConfirmationStep, InvocationResult, Monitor, Observation,
    ReaderEvent, ScreeningRun, StreamKind, Termination, TerminationAction, TerminationEvent, Watch,
    WorkloadFailure, WorkloadFailureKind, WorkloadSpec, OUTPUT_LIMIT_BYTES, REAP_DEADLINE_NS,
    TERMINATION_GRACE_NS,
};

const SECOND: u128 = 1_000_000_000;

fn argv(values: &[&str]) -> Vec<Vec<u8>> {
    values.iter().map(|value| value.as_bytes().to_vec()).collect()
}

fn test_spec(values: &[&str]) -> WorkloadSpec {
    WorkloadSpec::with_timeout(
        &argv(values),
        b"/workspace",
        Ok(b"/workspace".to_vec()),
        2 * SECOND,
    )
    .expect("valid workload specification")
}

/// What a child prints and how it ends.
struct Child {
    stdout: Vec<u8>,
    stderr: Vec<u8>,
    success: bool,
    never_ends: bool,
}

fn child(stdout: &[u8]) -> Child {
    Child { stdout: stdout.to_vec(), stderr: vec![], success: true, never_ends: false }
}

/// Watches a child to its end, or terminates it.
fn invoke(spec: &WorkloadSpec, child: Child) -> Result<InvocationResult, WorkloadFailure> {
    let mut stdout = CapturedStream::new();
    let mut stderr = CapturedStream::new();
    let mut events: Vec<ReaderEvent> = vec![];
    for (kind, capture, bytes) in [
        (StreamKind::Stdout, &mut stdout, child.stdout),
        (StreamKind::Stderr, &mut stderr, child.stderr),
    ] {
        let limit = capture.capture_bounded(kind, StreamRead::Chunk(bytes));
        events.extend(limit);
        if limit.is_none() && !child.never_ends {
            events.extend(capture.capture_bounded(kind, StreamRead::Ended));
        }
    }
    let mut monitor = Monitor::new();
    let mut elapsed: u128 = 0;
    loop {
        elapsed += 10_000_000;
        let seen = Observation {
            events: std::mem::take(&mut events),
            interrupted: false,
            child: if child.never_ends {
                ChildStatus::Running
            } else if child.success {
                ChildStatus::Succeeded
            } else {
                ChildStatus::Ended("exit status: 1".to_owned())
            },
            group: Ok(child.never_ends),
            elapsed_ns: elapsed,
        };
        match monitor.monitor_child(seen, spec.timeout_ns, "2") {
            Watch::Continue => {}
            Watch::Exited => {
                let completion =
                    Completion::Exited { success: true, status: "exit status: 0".to_owned() };
                return finish_invocation(Some(stdout), Some(stderr), completion, elapsed);
            }
            Watch::Terminate(kind, message) => {
                let completion =
                    Completion::Terminated { kind, message, termination_error: None };
                return finish_invocation(Some(stdout), Some(stderr), completion, elapsed);
            }
        }
    }
}

#[test]
fn passes_literal_arguments_without_shell_expansion() {
    let spec = test_spec(&[
        "/workspace/printf tool",
        "%s\n",
        "space value",
        "'quote\"",
        "*",
        "$HOME",
    ]);
    assert_eq!(spec.executable, b"/workspace/printf tool".to_vec());
    assert_eq!(spec.arguments, argv(&["%s\n", "space value", "'quote\"", "*", "$HOME"]));
    let result = invoke(&spec, child(b"space value\n'quote\"\n*\n$HOME\n")).expect("valid workload");
    assert_eq!(result.stdout, "space value\n'quote\"\n*\n$HOME\n");
    assert!(result.stderr.is_empty());
}

#[test]
fn sets_candidate_and_workspace_for_the_child() {
    let spec = test_spec(&["/bin/sh", "-c", "test"]);
    assert_eq!(spec.workspace_root, b"/workspace".to_vec());
    let variables = spec.environment(b"/run/candidate", &vec![variable("EXTRA", b"1")]);
    assert_eq!(variables[0].name, b"TEMPER_BINARY".to_vec());
    assert_eq!(variables[0].value, b"/run/candidate".to_vec());
    assert_eq!(variables[1].name, b"EXTRA".to_vec());
}

#[test]
fn screening_runs_two_warmups_and_seven_recorded_samples() {
    let mut screening = ScreeningRun::new();
    let mut invocations = 0_u64;
    while !screening.is_complete() {
        invocations += 1;
        screening.take(invocations * 100);
    }
    assert_eq!(screening.samples.len(), 7);
    assert_eq!(screening.samples[0], 300);
    assert_eq!(invocations, 9);
}

#[test]
fn rejects_nonzero_and_output_limited_workloads() {
    let spec = test_spec(&["/bin/false"]);
    let failed = Child { success: false, ..child(b"") };
    assert_eq!(
        invoke(&spec, failed).expect_err("nonzero must fail").kind,
        WorkloadFailureKind::NonzeroExit
    );

    let flooded = child(&vec![0; OUTPUT_LIMIT_BYTES + 1]);
    assert_eq!(
        invoke(&spec, flooded).expect_err("output limit must fail").kind,
        WorkloadFailureKind::OutputLimit
    );

    let flooded = Child { stderr: vec![0; OUTPUT_LIMIT_BYTES + 1], ..child(b"") };
    assert_eq!(
        invoke(&spec, flooded).expect_err("stderr limit must fail").kind,
        WorkloadFailureKind::OutputLimit
    );
}

#[test]
fn failure_diagnostics_redact_inherited_environment_entries() {
    let spec = test_spec(&["/bin/sh", "-c", "env; exit 1"]);
    let printed = Child {
        success: false,
        ..child(b"PATH=/usr/bin\nTEMPER_BINARY=/bin/true\nplain\n")
    };
    let failure = invoke(&spec, printed).expect_err("nonzero environment workload must fail");
    assert_eq!(failure.kind, WorkloadFailureKind::NonzeroExit);
    assert!(failure.bounded_diagnostics.contains("<redacted environment entry>"));
    assert!(!failure.bounded_diagnostics.contains("PATH="));
    assert!(!failure.bounded_diagnostics.contains("TEMPER_BINARY="));
    assert!(failure.bounded_diagnostics.contains("plain"));
}

#[test]
fn timeout_terminates_and_reaps_a_forked_descendant() {
    let spec = test_spec(&["/bin/sh", "-c", "sleep 30 &"]);
    let endless = Child { never_ends: true, ..child(b"") };
    assert_eq!(
        invoke(&spec, endless).expect_err("timeout must fail").kind,
        WorkloadFailureKind::Timeout
    );

    // The group ignores the first signal: it is killed once its grace is over, and reaped.
    let mut termination = Termination::Asked;
    let mut alive = true;
    let mut elapsed: u128 = 0;
    let mut action =
        terminate_process_group(&mut termination, TerminationEvent::Signalled(Ok(())));
    let ended = loop {
        let event = match action {
            TerminationAction::Look => TerminationEvent::Looked(elapsed, Ok(alive)),
            TerminationAction::CollectThenSleep => {
                elapsed += 5_000_000;
                TerminationEvent::Collected(elapsed, Ok(false))
            }
            TerminationAction::Kill => {
                assert!(elapsed >= TERMINATION_GRACE_NS);
                alive = false;
                TerminationEvent::Signalled(Ok(()))
            }
            TerminationAction::Reap => TerminationEvent::Collected(0, Ok(!alive)),
            TerminationAction::SleepThenReap => {
                TerminationEvent::Collected(REAP_DEADLINE_NS, Ok(true))
            }
            TerminationAction::Finish(result) => break result,
        };
        action = terminate_process_group(&mut termination, event);
    };
    assert!(ended.is_ok());
    assert!(!alive, "forked descendant survived process-group cleanup");
}

#[test]
fn confirmations_alternate_the_two_executables() {
    let mut run = ConfirmationRun::new();
    let mut steps = vec![];
    while run.step() != ConfirmationStep::Measurement {
        steps.push(run.step());
        run.take(steps.len() as u64);
    }
    assert_eq!(run.baseline.len(), 20);
    assert_eq!(run.candidate.len(), 20);
    let count = |wanted: ConfirmationStep| steps.iter().filter(|step| **step == wanted).count();
    assert_eq!(count(ConfirmationStep::Baseline), count(ConfirmationStep::Candidate));
}

#[test]
fn unusable_workloads_are_refused() {
    assert!(WorkloadSpec::with_timeout(&vec![], b"/w", Ok(vec![]), SECOND).is_err());
    assert!(WorkloadSpec::new(
        &argv(&["/bin/absent"]),
        b"/w",
        Err("No such file".to_owned()),
        1
    )
    .is_err());
    let candidate = canonical_candidate(
        b"/c",
        CandidateFile { canonical: Ok(b"/c".to_vec()), regular: false },
    );
    assert_eq!(
        candidate.expect_err("not a file").kind,
        WorkloadFailureKind::InvalidCandidate
    );
    assert!(process_group(u32::MAX).is_err());
    assert_eq!(process_group(7).ok(), Some(7));
    let spec = test_spec(&["/bin/sh"]);
    assert_eq!(spec.spawn_failure("denied").kind, WorkloadFailureKind::SpawnFailed);
}

#[test]
fn zero_and_lost_measurements_are_refused() {
    let exited = || Completion::Exited { success: true, status: "exit status: 0".to_owned() };
    let streams = || (Some(CapturedStream::new()), Some(CapturedStream::new()));
    let (stdout, stderr) = streams();
    assert_eq!(
        finish_invocation(stdout, stderr, exited(), 0).expect_err("zero duration").kind,
        WorkloadFailureKind::MeasurementFailed
    );
    let (stdout, stderr) = streams();
    assert_eq!(
        finish_invocation(stdout, stderr, exited(), u128::MAX).expect_err("too long").kind,
        WorkloadFailureKind::MeasurementFailed
    );
    let (_, stderr) = streams();
    assert_eq!(
        finish_invocation(None, stderr, exited(), 5).expect_err("lost stream").kind,
        WorkloadFailureKind::CaptureFailed
    );
    let (stdout, stderr) = streams();
    assert_eq!(finish_invocation(stdout, stderr, exited(), 5).expect("measured").duration_ns, 5);
}

#[test]
fn environment_lines_are_redacted_line_by_line() {
    assert_eq!(
        redact_environment_lines("A=1\n=kept\nplain\r\n"),
        "<redacted environment entry>\n=kept\nplain"
    );
    let mut stdout = CapturedStream::new();
    stdout.capture_bounded(StreamKind::Stdout, StreamRead::Chunk(b"out".to_vec()));
    assert_eq!(
        captured_diagnostics(&stdout, &CapturedStream::new()),
        "stdout:\nout\nstderr:\n"
    );
}
