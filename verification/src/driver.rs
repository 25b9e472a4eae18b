//! Sandbox driver: the decisions taken around one execution.
//!
//! Flow: validate limits and module imports, decide what the workload may
//! reach (stdin, /inputs, /scratch) from its capabilities, run, classify the
//! outcome, and describe the runtime in a certificate. The host side performs
//! the compilation, the run and the I/O; this module decides.

use vstd::prelude::*;
use crate::caps::{CapabilitySet, CapError, CapModel};
use crate::capture::WriteCapped;
use crate::json::{canonical_json_output, canonicalize_json, opt_bytes};
use crate::determinism::{deterministic_env, deterministic_env_vars};
use crate::limits::{LimitsError, ResourceLimits, invalid_limit_message};
use crate::observe::{ExecutionMetrics, RuntimeCertificate, SandboxEvent, Signal, TerminationReason};
use crate::text::{contains_text, decimal, decimal_string, has_prefix, has_substring, starts_with_text};
use crate::vfs::VfsError;

verus! {

/// Execution mode for the workload.
#[derive(Debug, Clone)]
pub enum ExecMode {
    /// WASI/command: workload has a `_start` export.
    WasiCommand,
    /// Exported function: call the export with this name.
    ExportedFunction { name: String },
}

impl Default for ExecMode {
    fn default() -> (r: Self)
        ensures
            r is WasiCommand,
    {
        ExecMode::WasiCommand
    }
}

/// Run manifest: everything needed to execute a workload deterministically.
#[derive(Debug, Clone)]
pub struct RunManifest {
    /// Execution mode.
    pub mode: ExecMode,
    /// Resource limits.
    pub limits: ResourceLimits,
    /// Granted capabilities.
    pub capabilities: CapabilitySet,
    /// Optional: path to inputs directory on host.
    pub inputs_dir: Option<String>,
    /// Whether to canonicalize JSON output (sort keys).
    pub canonicalize_json_output: bool,
}

/// The result of a sandbox execution.
#[derive(Debug)]
pub struct ExecutionResult {
    pub stdout: Vec<u8>,
    pub stderr: Vec<u8>,
    pub metrics: ExecutionMetrics,
    pub certificate: RuntimeCertificate,
}

/// Top-level sandbox error.
#[derive(Debug)]
pub enum SandboxError {
    Limits(LimitsError),
    Capability(CapError),
    Vfs(VfsError),
    /// An error reported by the WebAssembly engine, by its message.
    Wasm(String),
    Validation(String),
    Internal(String),
}

/// The sandbox driver.
pub struct SandboxDriver;

/// What one execution may reach and how it is bounded, decided from the
/// manifest before the workload runs.
#[derive(Debug)]
pub struct ExecutionPlan {
    /// Pipe the caller's stdin bytes to the workload.
    pub pipe_stdin: bool,
    /// Check the host inputs directory before the run.
    pub check_inputs_dir: bool,
    /// Host directory to mount read-only at /inputs, if any.
    pub inputs_mount: Option<String>,
    /// Mount the scratch directory read-write at /scratch.
    pub scratch_mount: bool,
    /// Byte caps of the captured stdout and stderr.
    pub stdout_cap: usize,
    pub stderr_cap: usize,
    /// Instruction budget, epoch deadline and wall-clock budget.
    pub fuel: u64,
    pub epoch_deadline: u64,
    pub wall_time_ms: u64,
    /// Scratch quota in bytes.
    pub scratch_quota_bytes: u64,
    /// Name of the export to run.
    pub entry_point: String,
    /// Environment variables of the workload.
    pub env: Vec<(String, String)>,
}

/// The export that runs for `mode`.
pub open spec fn entry_point_of(mode: ExecMode) -> Seq<char> {
    match mode {
        ExecMode::WasiCommand => "_start"@,
        ExecMode::ExportedFunction { name } => name@,
    }
}

/// Namespaces a module may import from (by prefix).
pub open spec fn allowed_namespace(module: Seq<char>) -> bool {
    has_prefix(module, "wasi_snapshot_preview1"@) || has_prefix(module, "wasi_unstable"@)
        || has_prefix(module, "wasi"@)
}

/// The refusal message for an import of `name` from `module`.
pub open spec fn disallowed_import_message(module: Seq<char>, name: Seq<char>) -> Seq<char> {
    "module imports from disallowed namespace: "@ + module + "::"@ + name
}

impl SandboxDriver {
    /// Decide the execution plan for `manifest`: limits are validated first,
    /// then each resource is reachable only when its capability is granted
    /// (deny by default).
    pub fn plan(manifest: &RunManifest) -> (r: Result<ExecutionPlan, SandboxError>)
        ensures
            !manifest.limits.is_valid() ==> (r matches Err(
                SandboxError::Limits(LimitsError::InvalidLimit(m)),
            ) && m@ == invalid_limit_message(manifest.limits)),
            manifest.limits.is_valid() ==> (r matches Ok(p) && {
                &&& p.pipe_stdin == manifest.capabilities@.contains(CapModel::Stdin)
                &&& p.check_inputs_dir == (manifest.inputs_dir is Some)
                &&& (p.inputs_mount is Some) == (manifest.inputs_dir is Some && exists|c: CapModel|
                    manifest.capabilities@.contains(c) && c is FsRead)
                &&& (p.inputs_mount matches Some(d) ==> manifest.inputs_dir matches Some(i) && d@
                    == i@)
                &&& p.scratch_mount == exists|c: CapModel|
                    manifest.capabilities@.contains(c) && c is FsTmp
                &&& p.stdout_cap == manifest.limits.max_stdout_bytes
                &&& p.stderr_cap == manifest.limits.max_stderr_bytes
                &&& p.fuel == manifest.limits.fuel
                &&& p.epoch_deadline == manifest.limits.epoch_deadline
                &&& p.wall_time_ms == manifest.limits.wall_time_ms
                &&& p.scratch_quota_bytes == manifest.limits.scratch_quota_bytes
                &&& p.entry_point@ == entry_point_of(manifest.mode)
                &&& p.env@.len() == deterministic_env().len()
                &&& forall|i: int|
                    0 <= i < p.env@.len() ==> (#[trigger] p.env@[i]).0@ == deterministic_env()[i].0
                        && p.env@[i].1@ == deterministic_env()[i].1
            }),
    {
        match manifest.limits.validate() {
            Err(e) => {
                return Err(SandboxError::Limits(e));
            },
            Ok(()) => {},
        }
        let caps = &manifest.capabilities;
        let inputs_mount = match &manifest.inputs_dir {
            Some(d) => {
                if caps.can_read_fs() {
                    Some(d.clone())
                } else {
                    None
                }
            },
            None => None,
        };
        let entry_point = match &manifest.mode {
            ExecMode::WasiCommand => String::from_str("_start"),
            ExecMode::ExportedFunction { name } => name.clone(),
        };
        Ok(
            ExecutionPlan {
                pipe_stdin: caps.can_stdin(),
                check_inputs_dir: manifest.inputs_dir.is_some(),
                inputs_mount,
                scratch_mount: caps.can_tmp(),
                stdout_cap: manifest.limits.max_stdout_bytes,
                stderr_cap: manifest.limits.max_stderr_bytes,
                fuel: manifest.limits.fuel,
                epoch_deadline: manifest.limits.epoch_deadline,
                wall_time_ms: manifest.limits.wall_time_ms,
                scratch_quota_bytes: manifest.limits.scratch_quota_bytes,
                entry_point,
                env: deterministic_env_vars(),
            },
        )
    }
}

/// How the workload's run ended, as the engine reported it.
#[derive(Debug)]
pub enum RunOutcome {
    /// The entry point returned.
    Completed,
    /// The run stopped with an error, reported by its message; `timed_out`
    /// tells whether the wall-clock watchdog had fired.
    Failed { message: String, timed_out: bool },
}

/// `new` is `old` with one more event at the end.
pub open spec fn one_more_event(old: Seq<SandboxEvent>, new: Seq<SandboxEvent>) -> bool {
    new.len() == old.len() + 1 && new.drop_last() == old
}

/// The counters of two metrics agree (everything but outcome and events).
pub open spec fn same_counters(a: ExecutionMetrics, b: ExecutionMetrics) -> bool {
    &&& a.fuel_consumed == b.fuel_consumed
    &&& a.fuel_limit == b.fuel_limit
    &&& a.peak_memory_bytes == b.peak_memory_bytes
    &&& a.wall_time_ms == b.wall_time_ms
    &&& a.stdout_bytes == b.stdout_bytes
    &&& a.stderr_bytes == b.stderr_bytes
}

/// The error message names fuel exhaustion.
pub open spec fn names_fuel(message: Seq<char>) -> bool {
    has_substring(message, "all fuel consumed"@)
}

/// The error message names the epoch deadline.
pub open spec fn names_epoch(message: Seq<char>) -> bool {
    has_substring(message, "epoch"@)
}

/// The error message names memory exhaustion.
pub open spec fn names_memory(message: Seq<char>) -> bool {
    has_substring(message, "memory"@) || has_substring(message, "oom"@)
}

/// The certificate flags of a run under `limits`.
pub open spec fn certificate_flags_of(limits: ResourceLimits) -> Seq<Seq<char>> {
    seq![
        "nan_canonicalization=true"@,
        "parallel_compilation=false"@,
        "wasm_threads=false"@,
        "relaxed_simd=false"@,
        "fuel="@ + decimal(limits.fuel as nat),
        "epoch_deadline="@ + decimal(limits.epoch_deadline as nat),
    ]
}

/// `new` records a completed run: success with exit code 0, no new event.
pub open spec fn completed_as_reported(old: ExecutionMetrics, new: ExecutionMetrics) -> bool {
    &&& new.signal == Signal::Success
    &&& new.reason == TerminationReason::Normal
    &&& new.exit_code == Some(0i32)
    &&& new.events@ == old.events@
}

/// `new` records a failed run with engine message `message`.
pub open spec fn failed_as_reported(
    old: ExecutionMetrics,
    new: ExecutionMetrics,
    message: Seq<char>,
    timed_out: bool,
) -> bool {
    &&& new.signal == Signal::Failure
    &&& new.exit_code == old.exit_code
    &&& timed_out ==> new.reason == TerminationReason::Timeout && new.events@ == old.events@
    &&& !timed_out && names_fuel(message) ==> {
        &&& new.reason == TerminationReason::FuelExhausted
        &&& one_more_event(old.events@, new.events@)
        &&& new.events@.last() matches SandboxEvent::SandboxPreempt(e)
        &&& e@ == "fuel exhausted"@
    }
    &&& !timed_out && !names_fuel(message) && names_epoch(message) ==> {
        &&& new.reason == TerminationReason::EpochDeadline
        &&& one_more_event(old.events@, new.events@)
        &&& new.events@.last() matches SandboxEvent::SandboxPreempt(e)
        &&& e@ == "epoch deadline"@
    }
    &&& !timed_out && !names_fuel(message) && !names_epoch(message) && names_memory(message) ==> {
        &&& new.reason == TerminationReason::MemoryExceeded
        &&& one_more_event(old.events@, new.events@)
        &&& new.events@.last() is SandboxOom
    }
    &&& !timed_out && !names_fuel(message) && !names_epoch(message) && !names_memory(message) ==> {
        &&& new.reason matches TerminationReason::TrapOrPanic(m)
        &&& m@ == message
        &&& new.events@ == old.events@
    }
}

/// Law: how a failed run is classified (`record_outcome`) is decided by the
/// watchdog and by which texts the engine's message contains: a timeout when
/// the watchdog fired; otherwise fuel exhaustion exactly when the message
/// contains "all fuel consumed", then the epoch deadline when it contains
/// "epoch", then memory exhaustion when it contains "memory" or "oom"; any
/// other failure is a trap carrying the message, with no event added.
pub proof fn lemma_failure_classification(
    old: ExecutionMetrics,
    new: ExecutionMetrics,
    message: Seq<char>,
    timed_out: bool,
)
    requires
        failed_as_reported(old, new, message, timed_out),
    ensures
        new.signal == Signal::Failure,
        (new.reason == TerminationReason::Timeout) <==> timed_out,
        (new.reason == TerminationReason::FuelExhausted) <==> (!timed_out && has_substring(
            message,
            "all fuel consumed"@,
        )),
        (new.reason == TerminationReason::EpochDeadline) <==> (!timed_out && !has_substring(
            message,
            "all fuel consumed"@,
        ) && has_substring(message, "epoch"@)),
        (new.reason == TerminationReason::MemoryExceeded) <==> (!timed_out && !has_substring(
            message,
            "all fuel consumed"@,
        ) && !has_substring(message, "epoch"@) && (has_substring(message, "memory"@)
            || has_substring(message, "oom"@))),
        !timed_out && !has_substring(message, "all fuel consumed"@) && !has_substring(
            message,
            "epoch"@,
        ) && !has_substring(message, "memory"@) && !has_substring(message, "oom"@) ==> {
            &&& new.reason matches TerminationReason::TrapOrPanic(t)
            &&& t@ == message
            &&& new.events@ == old.events@
        },
{
}

/// The fuel a run consumed: the limit minus what remained, or zero when more
/// remained than the limit.
pub open spec fn consumed_fuel(fuel_limit: u64, fuel_remaining: u64) -> u64 {
    if fuel_remaining <= fuel_limit {
        (fuel_limit - fuel_remaining) as u64
    } else {
        0
    }
}

/// `new` is `old` with the fuel consumption recorded (`record_fuel`): the
/// consumed fuel set, a `FuelConsumed` event appended, nothing else changed.
pub open spec fn fuel_recorded(
    old: ExecutionMetrics,
    new: ExecutionMetrics,
    fuel_limit: u64,
    fuel_remaining: u64,
) -> bool {
    &&& new.fuel_consumed == consumed_fuel(fuel_limit, fuel_remaining)
    &&& one_more_event(old.events@, new.events@)
    &&& new.events@.last() matches SandboxEvent::FuelConsumed(f) && f == new.fuel_consumed
    &&& new.fuel_limit == old.fuel_limit
    &&& new.peak_memory_bytes == old.peak_memory_bytes
    &&& new.wall_time_ms == old.wall_time_ms
    &&& new.stdout_bytes == old.stdout_bytes
    &&& new.stderr_bytes == old.stderr_bytes
    &&& new.exit_code == old.exit_code
    &&& new.signal == old.signal
    &&& new.reason == old.reason
}

/// `new` is `old` with the run's outcome recorded (`record_outcome`).
pub open spec fn outcome_recorded(old: ExecutionMetrics, new: ExecutionMetrics, outcome: RunOutcome) -> bool {
    &&& same_counters(new, old)
    &&& match outcome {
        RunOutcome::Completed => completed_as_reported(old, new),
        RunOutcome::Failed { message, timed_out } => failed_as_reported(
            old,
            new,
            message@,
            timed_out,
        ),
    }
}

/// The log of a run that got past module validation and the VFS mount.
pub open spec fn run_start_log() -> Seq<SandboxEvent> {
    seq![SandboxEvent::SandboxStart, SandboxEvent::ModuleValidated, SandboxEvent::VfsMounted]
}

/// `m` is the metrics of a fresh run under `fuel_limit` that got past module
/// validation and the VFS mount: nothing counted yet, outcome not known.
pub open spec fn run_begun(m: ExecutionMetrics, fuel_limit: u64) -> bool {
    &&& m.fuel_consumed == 0
    &&& m.fuel_limit == fuel_limit
    &&& m.peak_memory_bytes == 0
    &&& m.wall_time_ms == 0
    &&& m.stdout_bytes == 0
    &&& m.stderr_bytes == 0
    &&& m.exit_code == None::<i32>
    &&& m.signal == Signal::Indeterminate
    &&& m.reason == TerminationReason::Normal
    &&& m.events@ == run_start_log()
}

impl SandboxDriver {
    /// Record how the run ended. A completed run is a success with exit
    /// code 0. A failed run is a failure whose reason is, in this order of
    /// precedence: a timeout if the watchdog fired; fuel exhaustion, the
    /// epoch deadline or memory exhaustion if the engine's message names
    /// them (each with its preemption event); otherwise a trap carrying the
    /// message.
    pub fn record_outcome(metrics: &mut ExecutionMetrics, outcome: &RunOutcome)
        ensures
            outcome_recorded(*old(metrics), *final(metrics), *outcome),
    {
        match outcome {
            RunOutcome::Completed => {
                metrics.signal = Signal::Success;
                metrics.reason = TerminationReason::Normal;
                metrics.exit_code = Some(0);
            },
            RunOutcome::Failed { message, timed_out } => {
                let msg = message.as_str();
                metrics.signal = Signal::Failure;
                if *timed_out {
                    metrics.reason = TerminationReason::Timeout;
                } else if contains_text(msg, "all fuel consumed") {
                    metrics.reason = TerminationReason::FuelExhausted;
                    metrics.record_event(
                        SandboxEvent::SandboxPreempt(String::from_str("fuel exhausted")),
                    );
                    proof {
                        assert(metrics.events@.drop_last() =~= old(metrics).events@);
                    }
                } else if contains_text(msg, "epoch") {
                    metrics.reason = TerminationReason::EpochDeadline;
                    metrics.record_event(
                        SandboxEvent::SandboxPreempt(String::from_str("epoch deadline")),
                    );
                    proof {
                        assert(metrics.events@.drop_last() =~= old(metrics).events@);
                    }
                } else if contains_text(msg, "memory") || contains_text(msg, "oom") {
                    metrics.reason = TerminationReason::MemoryExceeded;
                    metrics.record_event(SandboxEvent::SandboxOom);
                    proof {
                        assert(metrics.events@.drop_last() =~= old(metrics).events@);
                    }
                } else {
                    metrics.reason = TerminationReason::TrapOrPanic(message.clone());
                }
            },
        }
    }

    /// Record the fuel a run consumed: the limit minus what remained
    /// (saturating at zero), with a `FuelConsumed` event.
    pub fn record_fuel(metrics: &mut ExecutionMetrics, fuel_limit: u64, fuel_remaining: u64)
        ensures
            fuel_recorded(*old(metrics), *final(metrics), fuel_limit, fuel_remaining),
    {
        metrics.fuel_consumed = fuel_limit.saturating_sub(fuel_remaining);
        let consumed = metrics.fuel_consumed;
        metrics.record_event(SandboxEvent::FuelConsumed(consumed));
        proof {
            assert(metrics.events@.drop_last() =~= old(metrics).events@);
        }
    }

    /// Whether the run's stdout is to be canonicalized as JSON: only when the
    /// manifest asks for it and the run succeeded.
    pub fn wants_canonical_output(manifest: &RunManifest, metrics: &ExecutionMetrics) -> (r: bool)
        ensures
            r == (manifest.canonicalize_json_output && metrics.signal == Signal::Success),
    {
        manifest.canonicalize_json_output && metrics.signal == Signal::Success
    }

    /// Assemble the result of a run once the engine has stopped. The
    /// metrics are those of a fresh run under the manifest's fuel limit that
    /// got past module validation and the VFS mount; the fuel consumed and
    /// the outcome are recorded, the captured stdout and stderr counted, and
    /// the log closed with `SandboxEnd` and `WallTimeElapsed`. When the
    /// manifest asks for canonical JSON and the run succeeded, the output is
    /// the captured stdout canonicalized (`canonicalize_json`) if it is one
    /// JSON document; otherwise it is the captured stdout.
    pub fn finish_run(
        manifest: &RunManifest,
        outcome: &RunOutcome,
        fuel_remaining: u64,
        stdout: WriteCapped,
        stderr: WriteCapped,
        elapsed_ms: u64,
        certificate: RuntimeCertificate,
    ) -> (r: ExecutionResult)
        ensures
            exists|begun: ExecutionMetrics, fueled: ExecutionMetrics, ended: ExecutionMetrics|
                #![trigger run_begun(begun, manifest.limits.fuel), fuel_recorded(begun, fueled, manifest.limits.fuel, fuel_remaining), outcome_recorded(fueled, ended, *outcome)]
                {
                    &&& run_begun(begun, manifest.limits.fuel)
                    &&& fuel_recorded(begun, fueled, manifest.limits.fuel, fuel_remaining)
                    &&& outcome_recorded(fueled, ended, *outcome)
                    &&& r.metrics.signal == ended.signal
                    &&& r.metrics.reason == ended.reason
                    &&& r.metrics.exit_code == ended.exit_code
                    &&& r.metrics.events@ == ended.events@ + seq![
                        SandboxEvent::SandboxEnd,
                        SandboxEvent::WallTimeElapsed(elapsed_ms),
                    ]
                },
            r.metrics.fuel_limit == manifest.limits.fuel,
            r.metrics.fuel_consumed == consumed_fuel(manifest.limits.fuel, fuel_remaining),
            r.metrics.fuel_consumed <= manifest.limits.fuel,
            r.metrics.peak_memory_bytes == 0,
            r.metrics.stdout_bytes == stdout.contents().len(),
            r.metrics.stdout_bytes <= stdout.cap(),
            r.metrics.stderr_bytes == stderr.contents().len(),
            r.metrics.stderr_bytes <= stderr.cap(),
            r.metrics.wall_time_ms == elapsed_ms,
            r.metrics.events@.len() == 6 || r.metrics.events@.len() == 7,
            r.metrics.events@.take(4) == run_start_log().push(
                SandboxEvent::FuelConsumed(r.metrics.fuel_consumed),
            ),
            r.metrics.events@[r.metrics.events@.len() - 2] is SandboxEnd,
            r.metrics.events@.last() == SandboxEvent::WallTimeElapsed(elapsed_ms),
            (match outcome {
                RunOutcome::Completed => {
                    &&& r.metrics.signal == Signal::Success
                    &&& r.metrics.reason == TerminationReason::Normal
                    &&& r.metrics.exit_code == Some(0i32)
                },
                RunOutcome::Failed { .. } => {
                    &&& r.metrics.signal == Signal::Failure
                    &&& r.metrics.exit_code == None::<i32>
                },
            }),
            manifest.canonicalize_json_output && r.metrics.signal == Signal::Success ==> exists|
                c: Option<Seq<u8>>,
            |
                #[trigger] canonical_json_output(stdout.contents(), c) && r.stdout@ == match c {
                    Some(o) => o,
                    None => stdout.contents(),
                },
            !(manifest.canonicalize_json_output && r.metrics.signal == Signal::Success)
                ==> r.stdout@ == stdout.contents(),
            stdout.cap() <= manifest.limits.max_stdout_bytes ==> r.metrics.stdout_bytes
                <= manifest.limits.max_stdout_bytes,
            stderr.cap() <= manifest.limits.max_stderr_bytes ==> r.stderr@.len()
                <= manifest.limits.max_stderr_bytes,
            r.stderr@ == stderr.contents(),
            r.certificate == certificate,
    {
        let mut metrics = ExecutionMetrics::new(manifest.limits.fuel);
        metrics.record_event(SandboxEvent::ModuleValidated);
        metrics.record_event(SandboxEvent::VfsMounted);
        let ghost begun = metrics;
        proof {
            assert(begun.events@ =~= run_start_log());
        }
        Self::record_fuel(&mut metrics, manifest.limits.fuel, fuel_remaining);
        let ghost fueled = metrics;
        Self::record_outcome(&mut metrics, outcome);
        let ghost ended = metrics;
        let raw_stdout = stdout.into_bytes();
        let raw_stderr = stderr.into_bytes();
        metrics.stdout_bytes = raw_stdout.len();
        metrics.stderr_bytes = raw_stderr.len();
        metrics.finalize(elapsed_ms);
        let wall = metrics.wall_time_ms;
        metrics.record_event(SandboxEvent::WallTimeElapsed(wall));
        let out = if Self::wants_canonical_output(manifest, &metrics) {
            let canonical = canonicalize_json(raw_stdout.as_slice());
            proof {
                assert(canonical_json_output(stdout.contents(), opt_bytes(canonical)));
            }
            match canonical {
                Some(c) => c,
                None => raw_stdout,
            }
        } else {
            raw_stdout
        };
        proof {
            assert(fueled.events@ =~= run_start_log().push(fueled.events@.last()));
            assert(metrics.events@ =~= ended.events@ + seq![
                SandboxEvent::SandboxEnd,
                SandboxEvent::WallTimeElapsed(elapsed_ms),
            ]);
            assert(ended.events@.take(4) =~= fueled.events@) by {
                match *outcome {
                    RunOutcome::Completed => {},
                    RunOutcome::Failed { message, timed_out } => {
                        if ended.events@.len() != fueled.events@.len() {
                            assert(ended.events@.drop_last() == fueled.events@);
                        }
                    },
                }
            }
            assert(metrics.events@.take(4) =~= fueled.events@);
            assert(run_begun(begun, manifest.limits.fuel));
            assert(fuel_recorded(begun, fueled, manifest.limits.fuel, fuel_remaining));
            assert(outcome_recorded(fueled, ended, *outcome));
        }
        ExecutionResult { stdout: out, stderr: raw_stderr, metrics, certificate }
    }

    /// The configuration flags recorded in the runtime certificate.
    pub fn certificate_flags(limits: &ResourceLimits) -> (r: Vec<String>)
        ensures
            r@.len() == certificate_flags_of(*limits).len(),
            forall|i: int|
                0 <= i < r@.len() ==> (#[trigger] r@[i])@ == certificate_flags_of(*limits)[i],
    {
        let mut v: Vec<String> = Vec::new();
        v.push(String::from_str("nan_canonicalization=true"));
        v.push(String::from_str("parallel_compilation=false"));
        v.push(String::from_str("wasm_threads=false"));
        v.push(String::from_str("relaxed_simd=false"));
        let fuel = decimal_string(limits.fuel);
        v.push(String::from_str("fuel=").concat(fuel.as_str()));
        let epoch = decimal_string(limits.epoch_deadline);
        v.push(String::from_str("epoch_deadline=").concat(epoch.as_str()));
        v
    }
}

/// Validate that a module only imports from known WASI namespaces. `imports`
/// lists the module's imports as (namespace, name) pairs in order; the first
/// import from another namespace is reported.
pub fn validate_imports(imports: &Vec<(String, String)>) -> (r: Result<(), SandboxError>)
    ensures
        r is Ok <==> forall|i: int| 0 <= i < imports@.len() ==> allowed_namespace(
            (#[trigger] imports@[i]).0@,
        ),
        r is Err ==> exists|i: int|
            0 <= i < imports@.len() && !allowed_namespace(imports@[i].0@) && (forall|j: int|
                0 <= j < i ==> allowed_namespace(#[trigger] imports@[j].0@)) && (r matches Err(
                SandboxError::Validation(m),
            ) && m@ == disallowed_import_message(imports@[i].0@, imports@[i].1@)),
{
    let n = imports.len();
    let mut i: usize = 0;
    while i < n
        invariant
            n == imports@.len(),
            i <= n,
            forall|j: int| 0 <= j < i ==> allowed_namespace(#[trigger] imports@[j].0@),
        decreases n - i,
    {
        let module = imports[i].0.as_str();
        let allowed = starts_with_text(module, "wasi_snapshot_preview1") || starts_with_text(
            module,
            "wasi_unstable",
        ) || starts_with_text(module, "wasi");
        if !allowed {
            let msg = String::from_str("module imports from disallowed namespace: ").concat(
                module,
            ).concat("::").concat(imports[i].1.as_str());
            return Err(SandboxError::Validation(msg));
        }
        i = i + 1;
    }
    Ok(())
}

} // verus!
