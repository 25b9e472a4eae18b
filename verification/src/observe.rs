//! Observability: metrics, events, and the runtime certificate.
//!
//! No user data is captured, only structural execution metadata.

use vstd::prelude::*;
use crate::digest::{blake3_digest, blake3_hash};
use crate::text::{hex_lower, hex_string};

verus! {

/// Execution signal: the overall outcome.
#[derive(Debug, Clone, Copy, PartialEq, Eq, Structural)]
pub enum Signal {
    Success,
    Failure,
    Indeterminate,
}

/// Reason for non-success.
#[derive(Debug, Clone, PartialEq, Eq)]
pub enum TerminationReason {
    Normal,
    Timeout,
    FuelExhausted,
    EpochDeadline,
    MemoryExceeded,
    StdoutCapExceeded,
    ScratchQuotaExceeded,
    CapabilityDenied(String),
    TrapOrPanic(String),
    InvalidModule(String),
    InternalError(String),
}

/// Sandbox event for structured logging.
#[derive(Debug, Clone)]
pub enum SandboxEvent {
    SandboxStart,
    SandboxEnd,
    SandboxPreempt(String),
    SandboxOom,
    CapDenied(String),
    ModuleValidated,
    VfsMounted,
    FuelConsumed(u64),
    WallTimeElapsed(u64),
}

/// Metrics collected from a single sandbox execution.
#[derive(Debug, Clone)]
pub struct ExecutionMetrics {
    pub fuel_consumed: u64,
    pub fuel_limit: u64,
    pub peak_memory_bytes: usize,
    pub wall_time_ms: u64,
    pub stdout_bytes: usize,
    pub stderr_bytes: usize,
    pub exit_code: Option<i32>,
    pub signal: Signal,
    pub reason: TerminationReason,
    pub events: Vec<SandboxEvent>,
}

impl ExecutionMetrics {
    /// Fresh metrics for a run with the given fuel limit: nothing consumed,
    /// outcome not yet known, and a single `SandboxStart` event.
    pub fn new(fuel_limit: u64) -> (r: Self)
        ensures
            r.fuel_consumed == 0,
            r.fuel_limit == fuel_limit,
            r.peak_memory_bytes == 0,
            r.wall_time_ms == 0,
            r.stdout_bytes == 0,
            r.stderr_bytes == 0,
            r.exit_code == None::<i32>,
            r.signal == Signal::Indeterminate,
            r.reason == TerminationReason::Normal,
            r.events@.len() == 1,
            r.events@[0] is SandboxStart,
    {
        Self {
            fuel_consumed: 0,
            fuel_limit,
            peak_memory_bytes: 0,
            wall_time_ms: 0,
            stdout_bytes: 0,
            stderr_bytes: 0,
            exit_code: None,
            signal: Signal::Indeterminate,
            reason: TerminationReason::Normal,
            events: vec![SandboxEvent::SandboxStart],
        }
    }

    /// Append an event to the log; nothing else changes.
    pub fn record_event(&mut self, event: SandboxEvent)
        ensures
            final(self).events@ == old(self).events@.push(event),
            final(self).fuel_consumed == old(self).fuel_consumed,
            final(self).fuel_limit == old(self).fuel_limit,
            final(self).peak_memory_bytes == old(self).peak_memory_bytes,
            final(self).wall_time_ms == old(self).wall_time_ms,
            final(self).stdout_bytes == old(self).stdout_bytes,
            final(self).stderr_bytes == old(self).stderr_bytes,
            final(self).exit_code == old(self).exit_code,
            final(self).signal == old(self).signal,
            final(self).reason == old(self).reason,
    {
        self.events.push(event);
    }

    /// Record the elapsed wall-clock time (measured by the caller from the
    /// start of the run) and close the log with `SandboxEnd`.
    pub fn finalize(&mut self, elapsed_ms: u64)
        ensures
            final(self).wall_time_ms == elapsed_ms,
            final(self).events@ == old(self).events@.push(SandboxEvent::SandboxEnd),
            final(self).fuel_consumed == old(self).fuel_consumed,
            final(self).fuel_limit == old(self).fuel_limit,
            final(self).peak_memory_bytes == old(self).peak_memory_bytes,
            final(self).stdout_bytes == old(self).stdout_bytes,
            final(self).stderr_bytes == old(self).stderr_bytes,
            final(self).exit_code == old(self).exit_code,
            final(self).signal == old(self).signal,
            final(self).reason == old(self).reason,
    {
        self.wall_time_ms = elapsed_ms;
        self.events.push(SandboxEvent::SandboxEnd);
    }
}

/// Law: an event log that begins with `SandboxStart` still begins with it
/// after any further event is recorded, so every execution's log starts with
/// `SandboxStart` (`new`), whatever `record_event` and `finalize` add.
pub proof fn lemma_log_keeps_start(events: Seq<SandboxEvent>, e: SandboxEvent)
    requires
        events.len() > 0,
        events[0] is SandboxStart,
    ensures
        events.push(e)[0] is SandboxStart,
        events.push(e).len() == events.len() + 1,
{
}

/// Runtime certificate: identifies the exact executor binary and configuration.
#[derive(Debug, Clone)]
pub struct RuntimeCertificate {
    /// BLAKE3 hash of the executor binary (self).
    pub runtime_hash: String,
    /// Wasmtime version string.
    pub wasmtime_version: String,
    /// Active configuration flags affecting determinism.
    pub flags: Vec<String>,
}

/// The `runtime_hash` of a certificate for the executable bytes `exe`, if
/// they could be read.
pub open spec fn runtime_hash_of(exe: Option<Seq<u8>>) -> Seq<char> {
    match exe {
        Some(b) => "b3:"@ + hex_lower(blake3_digest(b)),
        None => "b3:unknown"@,
    }
}

impl RuntimeCertificate {
    /// Build the certificate for a runtime whose executable holds the bytes
    /// `exe` (`None` when they could not be read), whose package version is
    /// `version`, running with `flags`.
    pub fn for_runtime(exe: Option<&[u8]>, version: &str, flags: Vec<String>) -> (r: Self)
        ensures
            r.runtime_hash@ == runtime_hash_of(
                match exe {
                    Some(b) => Some(b@),
                    None => None,
                },
            ),
            r.wasmtime_version@ == "wasmtime-"@ + version@,
            r.flags == flags,
    {
        let runtime_hash = match exe {
            Some(bytes) => {
                let digest = blake3_hash(bytes);
                let hex = hex_string(&digest);
                String::from_str("b3:").concat(hex.as_str())
            },
            None => String::from_str("b3:unknown"),
        };
        let wasmtime_version = String::from_str("wasmtime-").concat(version);
        Self { runtime_hash, wasmtime_version, flags }
    }
}

} // verus!
