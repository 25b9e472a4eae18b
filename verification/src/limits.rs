//! Resource limits for sandbox execution.
//!
//! All limits are hard: exceeding any of them terminates the workload.

use vstd::prelude::*;

verus! {

/// Hard resource limits applied to every sandbox execution.
#[derive(Debug, Clone)]
pub struct ResourceLimits {
    /// Maximum fuel (instruction budget); must be positive (`validate`
    /// rejects zero).
    pub fuel: u64,
    /// Epoch deadline: number of epoch ticks before preemption.
    pub epoch_deadline: u64,
    /// Maximum wall-clock time in milliseconds.
    pub wall_time_ms: u64,
    /// Maximum linear memory in bytes.
    pub max_memory_bytes: usize,
    /// Maximum stack size in bytes.
    pub max_stack_bytes: usize,
    /// Maximum scratch (tmp) filesystem usage in bytes.
    pub scratch_quota_bytes: u64,
    /// Maximum number of simultaneously open file descriptors.
    pub max_open_files: u32,
    /// Maximum bytes writable to stdout.
    pub max_stdout_bytes: usize,
    /// Maximum bytes writable to stderr.
    pub max_stderr_bytes: usize,
}

/// Default instruction budget.
pub open spec fn spec_default_fuel() -> u64 {
    100_000_000
}

/// Default epoch deadline in ticks.
pub open spec fn spec_default_epoch_deadline() -> u64 {
    100
}

/// Default wall-clock budget in milliseconds.
pub open spec fn spec_default_wall_time_ms() -> u64 {
    5_000
}

/// Default linear memory cap: 64 MiB.
pub open spec fn spec_default_max_memory_bytes() -> usize {
    67_108_864
}

/// Default stack cap: 1 MiB.
pub open spec fn spec_default_max_stack_bytes() -> usize {
    1_048_576
}

/// Default scratch quota: 16 MiB.
pub open spec fn spec_default_scratch_quota_bytes() -> u64 {
    16_777_216
}

/// Default number of open files.
pub open spec fn spec_default_max_open_files() -> u32 {
    32
}

/// Default stdout cap: 4 MiB.
pub open spec fn spec_default_max_stdout_bytes() -> usize {
    4_194_304
}

/// Default stderr cap: 1 MiB.
pub open spec fn spec_default_max_stderr_bytes() -> usize {
    1_048_576
}

fn default_fuel() -> (r: u64)
    ensures
        r == spec_default_fuel(),
{
    100_000_000
}

fn default_epoch_deadline() -> (r: u64)
    ensures
        r == spec_default_epoch_deadline(),
{
    100
}

fn default_wall_time_ms() -> (r: u64)
    ensures
        r == spec_default_wall_time_ms(),
{
    5_000
}

fn default_max_memory_bytes() -> (r: usize)
    ensures
        r == spec_default_max_memory_bytes(),
{
    64 * 1024 * 1024
}

fn default_max_stack_bytes() -> (r: usize)
    ensures
        r == spec_default_max_stack_bytes(),
{
    1024 * 1024
}

fn default_scratch_quota_bytes() -> (r: u64)
    ensures
        r == spec_default_scratch_quota_bytes(),
{
    16 * 1024 * 1024
}

fn default_max_open_files() -> (r: u32)
    ensures
        r == spec_default_max_open_files(),
{
    32
}

fn default_max_stdout_bytes() -> (r: usize)
    ensures
        r == spec_default_max_stdout_bytes(),
{
    4 * 1024 * 1024
}

fn default_max_stderr_bytes() -> (r: usize)
    ensures
        r == spec_default_max_stderr_bytes(),
{
    1024 * 1024
}

/// The message of the first check that `limits` fails.
pub open spec fn invalid_limit_message(limits: ResourceLimits) -> Seq<char> {
    if limits.fuel == 0 {
        "fuel must be > 0"@
    } else if limits.max_memory_bytes == 0 {
        "max_memory_bytes must be > 0"@
    } else {
        "wall_time_ms must be > 0"@
    }
}

impl ResourceLimits {
    /// All limits at their default values.
    pub open spec fn is_default(self) -> bool {
        &&& self.fuel == spec_default_fuel()
        &&& self.epoch_deadline == spec_default_epoch_deadline()
        &&& self.wall_time_ms == spec_default_wall_time_ms()
        &&& self.max_memory_bytes == spec_default_max_memory_bytes()
        &&& self.max_stack_bytes == spec_default_max_stack_bytes()
        &&& self.scratch_quota_bytes == spec_default_scratch_quota_bytes()
        &&& self.max_open_files == spec_default_max_open_files()
        &&& self.max_stdout_bytes == spec_default_max_stdout_bytes()
        &&& self.max_stderr_bytes == spec_default_max_stderr_bytes()
    }

    /// Limits that `validate` accepts: positive fuel, memory and wall time.
    pub open spec fn is_valid(self) -> bool {
        self.fuel > 0 && self.max_memory_bytes > 0 && self.wall_time_ms > 0
    }

    /// Validate limits are sane. The first failing check decides the error.
    pub fn validate(&self) -> (r: Result<(), LimitsError>)
        ensures
            r is Ok <==> self.is_valid(),
            !self.is_valid() ==> (r matches Err(LimitsError::InvalidLimit(m)) && m@
                == invalid_limit_message(*self)),
            r is Ok <==> (self.fuel != 0 && self.max_memory_bytes != 0 && self.wall_time_ms != 0),
            self.fuel == 0 ==> (r matches Err(LimitsError::InvalidLimit(m)) && m@
                == "fuel must be > 0"@),
            self.fuel != 0 && self.max_memory_bytes == 0 ==> (r matches Err(
                LimitsError::InvalidLimit(m),
            ) && m@ == "max_memory_bytes must be > 0"@),
            self.fuel != 0 && self.max_memory_bytes != 0 && self.wall_time_ms == 0 ==> (r matches Err(
                LimitsError::InvalidLimit(m),
            ) && m@ == "wall_time_ms must be > 0"@),
    {
        if self.fuel == 0 {
            return Err(LimitsError::InvalidLimit(String::from_str("fuel must be > 0")));
        }
        if self.max_memory_bytes == 0 {
            return Err(LimitsError::InvalidLimit(String::from_str("max_memory_bytes must be > 0")));
        }
        if self.wall_time_ms == 0 {
            return Err(LimitsError::InvalidLimit(String::from_str("wall_time_ms must be > 0")));
        }
        Ok(())
    }
}

/// Law: limits are valid exactly when fuel, memory and wall time are all
/// nonzero; any positive fuel, however small, is accepted.
pub proof fn lemma_valid_iff_nonzero(limits: ResourceLimits)
    ensures
        limits.is_valid() <==> (limits.fuel != 0 && limits.max_memory_bytes != 0
            && limits.wall_time_ms != 0),
{
}

/// Law: the refusal message names the first of fuel, memory and wall time
/// that is zero.
pub proof fn lemma_invalid_message_names_first_zero(limits: ResourceLimits)
    ensures
        limits.fuel == 0 ==> invalid_limit_message(limits) == "fuel must be > 0"@,
        limits.fuel != 0 && limits.max_memory_bytes == 0 ==> invalid_limit_message(limits)
            == "max_memory_bytes must be > 0"@,
        limits.fuel != 0 && limits.max_memory_bytes != 0 ==> invalid_limit_message(limits)
            == "wall_time_ms must be > 0"@,
{
}

/// Law: the default limits pass validation.
pub proof fn lemma_default_limits_are_valid(limits: ResourceLimits)
    requires
        limits.is_default(),
    ensures
        limits.is_valid(),
{
}

impl Default for ResourceLimits {
    fn default() -> (r: Self)
        ensures
            r.is_default(),
    {
        Self {
            fuel: default_fuel(),
            epoch_deadline: default_epoch_deadline(),
            wall_time_ms: default_wall_time_ms(),
            max_memory_bytes: default_max_memory_bytes(),
            max_stack_bytes: default_max_stack_bytes(),
            scratch_quota_bytes: default_scratch_quota_bytes(),
            max_open_files: default_max_open_files(),
            max_stdout_bytes: default_max_stdout_bytes(),
            max_stderr_bytes: default_max_stderr_bytes(),
        }
    }
}

/// Errors related to resource limits.
#[derive(Debug)]
pub enum LimitsError {
    InvalidLimit(String),
    FuelExhausted,
    EpochDeadline,
    WallTimeout(u64),
    MemoryExceeded(usize),
    StdoutCapExceeded(usize),
    ScratchQuotaExceeded,
    TooManyOpenFiles(u32),
}

} // verus!
