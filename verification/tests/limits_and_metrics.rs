use wasm_sandbox::caps::CapabilitySet;
use wasm_sandbox::capture::WriteCapped;
use wasm_sandbox::driver::{ExecMode, RunManifest, RunOutcome, SandboxDriver};
use wasm_sandbox::limits::{LimitsError, ResourceLimits};
use wasm_sandbox::observe::{ExecutionMetrics, SandboxEvent, Signal, TerminationReason};

#[test]
fn default_limits() {
    let l = ResourceLimits::default();
    assert_eq!(l.fuel, 100_000_000);
    assert_eq!(l.epoch_deadline, 100);
    assert_eq!(l.wall_time_ms, 5_000);
    assert_eq!(l.max_memory_bytes, 64 * 1024 * 1024);
    assert_eq!(l.max_stack_bytes, 1024 * 1024);
    assert_eq!(l.scratch_quota_bytes, 16 * 1024 * 1024);
    assert_eq!(l.max_open_files, 32);
    assert_eq!(l.max_stdout_bytes, 4 * 1024 * 1024);
    assert_eq!(l.max_stderr_bytes, 1024 * 1024);
    assert!(l.validate().is_ok());
}

fn invalid_message(l: &ResourceLimits) -> String {
    match l.validate() {
        Err(LimitsError::InvalidLimit(m)) => m,
        other => panic!("unexpected {other:?}"),
    }
}

#[test]
fn validate_reports_first_failing_limit() {
    let l = ResourceLimits { fuel: 0, max_memory_bytes: 0, ..ResourceLimits::default() };
    assert_eq!(invalid_message(&l), "fuel must be > 0");
    let l = ResourceLimits { max_memory_bytes: 0, wall_time_ms: 0, ..ResourceLimits::default() };
    assert_eq!(invalid_message(&l), "max_memory_bytes must be > 0");
    let l = ResourceLimits { wall_time_ms: 0, ..ResourceLimits::default() };
    assert_eq!(invalid_message(&l), "wall_time_ms must be > 0");
    let l = ResourceLimits { epoch_deadline: 0, max_stdout_bytes: 0, ..ResourceLimits::default() };
    assert!(l.validate().is_ok());
}

#[test]
fn new_metrics_start_indeterminate() {
    let m = ExecutionMetrics::new(42);
    assert_eq!(m.fuel_limit, 42);
    assert_eq!(m.fuel_consumed, 0);
    assert_eq!(m.signal, Signal::Indeterminate);
    assert_eq!(m.reason, TerminationReason::Normal);
    assert_eq!(m.exit_code, None);
    assert_eq!(m.events.len(), 1);
    assert!(matches!(m.events[0], SandboxEvent::SandboxStart));
}

#[test]
fn events_are_appended_and_finalize_closes_log() {
    let mut m = ExecutionMetrics::new(1);
    m.record_event(SandboxEvent::ModuleValidated);
    m.record_event(SandboxEvent::VfsMounted);
    m.finalize(17);
    assert_eq!(m.wall_time_ms, 17);
    assert_eq!(m.events.len(), 4);
    assert!(matches!(m.events[1], SandboxEvent::ModuleValidated));
    assert!(matches!(m.events[2], SandboxEvent::VfsMounted));
    assert!(matches!(m.events[3], SandboxEvent::SandboxEnd));
}

fn failed(msg: &str, timed_out: bool) -> ExecutionMetrics {
    let mut m = ExecutionMetrics::new(10);
    SandboxDriver::record_outcome(
        &mut m,
        &RunOutcome::Failed { message: msg.to_string(), timed_out },
    );
    m
}

#[test]
fn completed_run_is_success() {
    let mut m = ExecutionMetrics::new(10);
    SandboxDriver::record_outcome(&mut m, &RunOutcome::Completed);
    assert_eq!(m.signal, Signal::Success);
    assert_eq!(m.reason, TerminationReason::Normal);
    assert_eq!(m.exit_code, Some(0));
    assert_eq!(m.events.len(), 1);
}

#[test]
fn failure_classification() {
    let m = failed("wasm trap: all fuel consumed by WebAssembly", false);
    assert_eq!(m.signal, Signal::Failure);
    assert_eq!(m.reason, TerminationReason::FuelExhausted);
    assert!(matches!(&m.events[1], SandboxEvent::SandboxPreempt(s) if s == "fuel exhausted"));

    let m = failed("wasm trap: interrupt (epoch deadline)", false);
    assert_eq!(m.reason, TerminationReason::EpochDeadline);
    assert!(matches!(&m.events[1], SandboxEvent::SandboxPreempt(s) if s == "epoch deadline"));

    let m = failed("out of bounds memory access", false);
    assert_eq!(m.reason, TerminationReason::MemoryExceeded);
    assert!(matches!(m.events[1], SandboxEvent::SandboxOom));

    let m = failed("allocation failed: oom", false);
    assert_eq!(m.reason, TerminationReason::MemoryExceeded);

    let m = failed("unreachable executed", false);
    assert_eq!(m.reason, TerminationReason::TrapOrPanic("unreachable executed".to_string()));
    assert_eq!(m.events.len(), 1);

    // The watchdog takes precedence over whatever the message says.
    let m = failed("all fuel consumed", true);
    assert_eq!(m.reason, TerminationReason::Timeout);
    assert_eq!(m.events.len(), 1);
    assert_eq!(m.exit_code, None);
}

#[test]
fn fuel_consumed_saturates() {
    let mut m = ExecutionMetrics::new(100);
    SandboxDriver::record_fuel(&mut m, 100, 30);
    assert_eq!(m.fuel_consumed, 70);
    assert!(matches!(m.events[1], SandboxEvent::FuelConsumed(70)));
    let mut m = ExecutionMetrics::new(100);
    SandboxDriver::record_fuel(&mut m, 100, 500);
    assert_eq!(m.fuel_consumed, 0);
}

#[test]
fn certificate_flags_render_limits() {
    let l = ResourceLimits { fuel: 1_000_000, epoch_deadline: 2, ..ResourceLimits::default() };
    let flags = SandboxDriver::certificate_flags(&l);
    assert_eq!(
        flags,
        vec![
            "nan_canonicalization=true".to_string(),
            "parallel_compilation=false".to_string(),
            "wasm_threads=false".to_string(),
            "relaxed_simd=false".to_string(),
            "fuel=1000000".to_string(),
            "epoch_deadline=2".to_string(),
        ]
    );
    let zero = SandboxDriver::certificate_flags(&ResourceLimits { fuel: 0, epoch_deadline: u64::MAX, ..l });
    assert_eq!(zero[4], "fuel=0");
    assert_eq!(zero[5], format!("epoch_deadline={}", u64::MAX));
}

#[test]
fn canonical_output_only_after_success() {
    let manifest = RunManifest {
        mode: ExecMode::default(),
        limits: ResourceLimits::default(),
        capabilities: CapabilitySet::empty(),
        inputs_dir: None,
        canonicalize_json_output: true,
    };
    let mut m = ExecutionMetrics::new(1);
    assert!(!SandboxDriver::wants_canonical_output(&manifest, &m));
    SandboxDriver::record_outcome(&mut m, &RunOutcome::Completed);
    assert!(SandboxDriver::wants_canonical_output(&manifest, &m));
    let plain = RunManifest { canonicalize_json_output: false, ..manifest };
    assert!(!SandboxDriver::wants_canonical_output(&plain, &m));
}

fn json_manifest(canonicalize: bool) -> RunManifest {
    RunManifest {
        mode: ExecMode::default(),
        limits: ResourceLimits::default(),
        capabilities: CapabilitySet::empty(),
        inputs_dir: None,
        canonicalize_json_output: canonicalize,
    }
}

fn test_certificate() -> wasm_sandbox::observe::RuntimeCertificate {
    wasm_sandbox::observe::RuntimeCertificate::for_runtime(None, "0.0.0", vec![])
}

fn capture(cap: usize, bytes: &[u8]) -> WriteCapped {
    let mut w = WriteCapped::new(cap);
    let _ = w.write(bytes);
    w
}

#[test]
fn finish_run_assembles_a_completed_run() {
    let manifest = json_manifest(true);
    let limit = manifest.limits.fuel;
    let r = SandboxDriver::finish_run(
        &manifest,
        &RunOutcome::Completed,
        limit - 40,
        capture(1024, b"{\"b\":1,\"a\":2}"),
        capture(1024, b"warn"),
        12,
        test_certificate(),
    );
    assert_eq!(r.stdout, b"{\n  \"a\": 2,\n  \"b\": 1\n}\n".to_vec());
    assert_eq!(r.stderr, b"warn".to_vec());
    assert_eq!(r.metrics.stdout_bytes, 13);
    assert_eq!(r.metrics.stderr_bytes, 4);
    assert_eq!(r.metrics.fuel_limit, 100_000_000);
    assert_eq!(r.metrics.fuel_consumed, 40);
    assert_eq!(r.metrics.peak_memory_bytes, 0);
    assert_eq!(r.metrics.wall_time_ms, 12);
    assert_eq!(r.metrics.signal, Signal::Success);
    assert_eq!(r.metrics.exit_code, Some(0));
    assert_eq!(r.metrics.reason, TerminationReason::Normal);
    let ev = &r.metrics.events;
    assert_eq!(ev.len(), 6);
    assert!(matches!(ev[0], SandboxEvent::SandboxStart));
    assert!(matches!(ev[1], SandboxEvent::ModuleValidated));
    assert!(matches!(ev[2], SandboxEvent::VfsMounted));
    assert!(matches!(ev[3], SandboxEvent::FuelConsumed(40)));
    assert!(matches!(ev[4], SandboxEvent::SandboxEnd));
    assert!(matches!(ev[5], SandboxEvent::WallTimeElapsed(12)));
    assert_eq!(r.certificate.runtime_hash, "b3:unknown");
}

#[test]
fn finish_run_keeps_raw_output_on_failure_or_unparsed() {
    let manifest = json_manifest(true);
    let r = SandboxDriver::finish_run(
        &manifest,
        &RunOutcome::Failed { message: "all fuel consumed by WebAssembly".to_string(), timed_out: false },
        0,
        capture(4, b"{}{}{}"),
        capture(4, b""),
        3,
        test_certificate(),
    );
    assert_eq!(r.stdout, b"{}{}".to_vec());
    assert_eq!(r.metrics.stdout_bytes, 4);
    assert_eq!(r.metrics.signal, Signal::Failure);
    assert_eq!(r.metrics.exit_code, None);
    assert_eq!(r.metrics.reason, TerminationReason::FuelExhausted);
    assert_eq!(r.metrics.fuel_consumed, 100_000_000);
    let ev = &r.metrics.events;
    assert_eq!(ev.len(), 7);
    assert!(matches!(ev[0], SandboxEvent::SandboxStart));
    assert!(matches!(ev[3], SandboxEvent::FuelConsumed(100_000_000)));
    assert!(matches!(&ev[4], SandboxEvent::SandboxPreempt(s) if s == "fuel exhausted"));
    assert!(matches!(ev[5], SandboxEvent::SandboxEnd));
    assert!(matches!(ev[6], SandboxEvent::WallTimeElapsed(3)));

    let over = SandboxDriver::finish_run(
        &manifest,
        &RunOutcome::Completed,
        u64::MAX,
        capture(16, b"not json"),
        capture(16, b""),
        1,
        test_certificate(),
    );
    assert_eq!(over.stdout, b"not json".to_vec());
    assert_eq!(over.metrics.fuel_consumed, 0);

    let plain = SandboxDriver::finish_run(
        &json_manifest(false),
        &RunOutcome::Completed,
        10,
        capture(16, b"{}"),
        capture(16, b""),
        1,
        test_certificate(),
    );
    assert_eq!(plain.stdout, b"{}".to_vec());

    let empty_object = SandboxDriver::finish_run(
        &manifest,
        &RunOutcome::Completed,
        10,
        capture(16, b"{}"),
        capture(16, b""),
        1,
        test_certificate(),
    );
    assert_eq!(empty_object.stdout, b"{}\n".to_vec());
    assert_eq!(empty_object.metrics.stdout_bytes, 2);
}
