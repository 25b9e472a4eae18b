//! Determinism controls: the engine settings that make the same module with
//! the same inputs produce the same output, byte for byte, and the fixed
//! environment the workload sees.

use vstd::prelude::*;
use wasmtime::Config;

verus! {

/// Fixed epoch used when a workload asks for "current time" (1970-01-01T00:00:00Z).
pub const FIXED_EPOCH_SECS: i64 = 0;

/// Locale the workload sees.
pub const FIXED_LOCALE: &'static str = "en_US.UTF-8";

/// Time zone the workload sees.
pub const FIXED_TZ: &'static str = "UTC";

#[verifier::external_type_specification]
#[verifier::external_body]
pub struct ExConfig(Config);

/// The determinism-critical engine settings.
#[derive(Debug, Clone, Copy, PartialEq, Eq, Structural)]
pub struct EngineSettings {
    /// Canonicalize NaN bit patterns.
    pub nan_canonicalization: bool,
    /// Compile in parallel (compilation order matters, so off).
    pub parallel_compilation: bool,
    /// Meter fuel (needed for preemption).
    pub consume_fuel: bool,
    /// Interrupt on epoch deadlines (secondary preemption).
    pub epoch_interruption: bool,
    /// The threads proposal.
    pub wasm_threads: bool,
    /// SIMD (deterministic once NaNs are canonical).
    pub wasm_simd: bool,
    /// Relaxed SIMD (non-deterministic, so off).
    pub wasm_relaxed_simd: bool,
    /// Linear memory address-space reservation in bytes.
    pub memory_reservation: u64,
    /// Guard region after linear memory in bytes.
    pub memory_guard_size: u64,
}

/// The settings applied by `configure_deterministic`.
pub open spec fn spec_deterministic_settings() -> EngineSettings {
    EngineSettings {
        nan_canonicalization: true,
        parallel_compilation: false,
        consume_fuel: true,
        epoch_interruption: true,
        wasm_threads: false,
        wasm_simd: true,
        wasm_relaxed_simd: false,
        memory_reservation: 0,
        memory_guard_size: 0x10000,
    }
}

/// The determinism-critical settings.
pub fn deterministic_settings() -> (r: EngineSettings)
    ensures
        r == spec_deterministic_settings(),
{
    EngineSettings {
        nan_canonicalization: true,
        parallel_compilation: false,
        consume_fuel: true,
        epoch_interruption: true,
        wasm_threads: false,
        wasm_simd: true,
        wasm_relaxed_simd: false,
        memory_reservation: 0,
        memory_guard_size: 0x10000,
    }
}

/// The configuration that `Config::cranelift_nan_canonicalization(enable)`
/// leaves behind when called on `config`. The setter stores the
/// `enable_nan_canonicalization` compiler flag and touches nothing else, so the
/// new configuration is a function of the old one and the flag.
pub uninterp spec fn config_with_nan_canonicalization(config: Config, enable: bool) -> Config;

/// The configuration that `Config::parallel_compilation(enable)` leaves
/// behind: the old one with its parallel-compilation switch set.
pub uninterp spec fn config_with_parallel_compilation(config: Config, enable: bool) -> Config;

/// The configuration that `Config::consume_fuel(enable)` leaves behind: the
/// old one with its fuel-metering tunable set.
pub uninterp spec fn config_with_consume_fuel(config: Config, enable: bool) -> Config;

/// The configuration that `Config::epoch_interruption(enable)` leaves behind:
/// the old one with its epoch-interruption tunable set.
pub uninterp spec fn config_with_epoch_interruption(config: Config, enable: bool) -> Config;

/// The configuration that `Config::wasm_threads(enable)` leaves behind: the
/// old one with the threads proposal marked enabled or disabled.
pub uninterp spec fn config_with_wasm_threads(config: Config, enable: bool) -> Config;

/// The configuration that `Config::wasm_simd(enable)` leaves behind: the old
/// one with the SIMD proposal marked enabled or disabled.
pub uninterp spec fn config_with_wasm_simd(config: Config, enable: bool) -> Config;

/// The configuration that `Config::wasm_relaxed_simd(enable)` leaves behind:
/// the old one with the relaxed-SIMD proposal marked enabled or disabled.
pub uninterp spec fn config_with_wasm_relaxed_simd(config: Config, enable: bool) -> Config;

/// The configuration that `Config::memory_reservation(bytes)` leaves behind:
/// the old one with its memory-reservation tunable set.
pub uninterp spec fn config_with_memory_reservation(config: Config, bytes: u64) -> Config;

/// The configuration that `Config::memory_guard_size(bytes)` leaves behind:
/// the old one with its guard-size tunable set.
pub uninterp spec fn config_with_memory_guard_size(config: Config, bytes: u64) -> Config;

/// `config` already holds `enable` for `nan_canonicalization`: setting it again changes nothing.
pub open spec fn holds_nan_canonicalization(config: Config, enable: bool) -> bool {
    config_with_nan_canonicalization(config, enable) == config
}

/// Whatever `nan_canonicalization` setting `old` holds, `new` holds too.
pub open spec fn keeps_nan_canonicalization(old: Config, new: Config) -> bool {
    forall|v: bool| config_with_nan_canonicalization(old, v) == old ==> #[trigger] config_with_nan_canonicalization(new, v) == new
}

/// `config` already holds `enable` for `parallel_compilation`: setting it again changes nothing.
pub open spec fn holds_parallel_compilation(config: Config, enable: bool) -> bool {
    config_with_parallel_compilation(config, enable) == config
}

/// Whatever `parallel_compilation` setting `old` holds, `new` holds too.
pub open spec fn keeps_parallel_compilation(old: Config, new: Config) -> bool {
    forall|v: bool| config_with_parallel_compilation(old, v) == old ==> #[trigger] config_with_parallel_compilation(new, v) == new
}

/// `config` already holds `enable` for `consume_fuel`: setting it again changes nothing.
pub open spec fn holds_consume_fuel(config: Config, enable: bool) -> bool {
    config_with_consume_fuel(config, enable) == config
}

/// Whatever `consume_fuel` setting `old` holds, `new` holds too.
pub open spec fn keeps_consume_fuel(old: Config, new: Config) -> bool {
    forall|v: bool| config_with_consume_fuel(old, v) == old ==> #[trigger] config_with_consume_fuel(new, v) == new
}

/// `config` already holds `enable` for `epoch_interruption`: setting it again changes nothing.
pub open spec fn holds_epoch_interruption(config: Config, enable: bool) -> bool {
    config_with_epoch_interruption(config, enable) == config
}

/// Whatever `epoch_interruption` setting `old` holds, `new` holds too.
pub open spec fn keeps_epoch_interruption(old: Config, new: Config) -> bool {
    forall|v: bool| config_with_epoch_interruption(old, v) == old ==> #[trigger] config_with_epoch_interruption(new, v) == new
}

/// `config` already holds `enable` for `wasm_threads`: setting it again changes nothing.
pub open spec fn holds_wasm_threads(config: Config, enable: bool) -> bool {
    config_with_wasm_threads(config, enable) == config
}

/// Whatever `wasm_threads` setting `old` holds, `new` holds too.
pub open spec fn keeps_wasm_threads(old: Config, new: Config) -> bool {
    forall|v: bool| config_with_wasm_threads(old, v) == old ==> #[trigger] config_with_wasm_threads(new, v) == new
}

/// `config` already holds `enable` for `wasm_simd`: setting it again changes nothing.
pub open spec fn holds_wasm_simd(config: Config, enable: bool) -> bool {
    config_with_wasm_simd(config, enable) == config
}

/// Whatever `wasm_simd` setting `old` holds, `new` holds too.
pub open spec fn keeps_wasm_simd(old: Config, new: Config) -> bool {
    forall|v: bool| config_with_wasm_simd(old, v) == old ==> #[trigger] config_with_wasm_simd(new, v) == new
}

/// `config` already holds `enable` for `wasm_relaxed_simd`: setting it again changes nothing.
pub open spec fn holds_wasm_relaxed_simd(config: Config, enable: bool) -> bool {
    config_with_wasm_relaxed_simd(config, enable) == config
}

/// Whatever `wasm_relaxed_simd` setting `old` holds, `new` holds too.
pub open spec fn keeps_wasm_relaxed_simd(old: Config, new: Config) -> bool {
    forall|v: bool| config_with_wasm_relaxed_simd(old, v) == old ==> #[trigger] config_with_wasm_relaxed_simd(new, v) == new
}

/// `config` already holds `bytes` for `memory_reservation`: setting it again changes nothing.
pub open spec fn holds_memory_reservation(config: Config, bytes: u64) -> bool {
    config_with_memory_reservation(config, bytes) == config
}

/// Whatever `memory_reservation` setting `old` holds, `new` holds too.
pub open spec fn keeps_memory_reservation(old: Config, new: Config) -> bool {
    forall|v: u64| config_with_memory_reservation(old, v) == old ==> #[trigger] config_with_memory_reservation(new, v) == new
}

/// `config` already holds `bytes` for `memory_guard_size`: setting it again changes nothing.
pub open spec fn holds_memory_guard_size(config: Config, bytes: u64) -> bool {
    config_with_memory_guard_size(config, bytes) == config
}

/// Whatever `memory_guard_size` setting `old` holds, `new` holds too.
pub open spec fn keeps_memory_guard_size(old: Config, new: Config) -> bool {
    forall|v: u64| config_with_memory_guard_size(old, v) == old ==> #[trigger] config_with_memory_guard_size(new, v) == new
}

/// Calls `Config::cranelift_nan_canonicalization`. Claimed: the new
/// configuration is `config_with_nan_canonicalization` of the old one and the
/// flag; what that configuration holds inside is not stated.
/// Also claimed, as the setter only assigns its own field, feature bit or
/// compiler setting: the new configuration holds the value just set, and
/// keeps whatever value each of the other eight settings had.
#[verifier::external_body]
fn config_nan_canonicalization(config: &mut Config, enable: bool)
    ensures
        *final(config) == config_with_nan_canonicalization(*old(config), enable),
        holds_nan_canonicalization(*final(config), enable),
        keeps_parallel_compilation(*old(config), *final(config)),
        keeps_consume_fuel(*old(config), *final(config)),
        keeps_epoch_interruption(*old(config), *final(config)),
        keeps_wasm_threads(*old(config), *final(config)),
        keeps_wasm_simd(*old(config), *final(config)),
        keeps_wasm_relaxed_simd(*old(config), *final(config)),
        keeps_memory_reservation(*old(config), *final(config)),
        keeps_memory_guard_size(*old(config), *final(config)),
{
    config.cranelift_nan_canonicalization(enable);
}

/// Calls `Config::parallel_compilation`. Claimed: the new configuration is
/// `config_with_parallel_compilation` of the old one and the flag.
/// Also claimed, as the setter only assigns its own field, feature bit or
/// compiler setting: the new configuration holds the value just set, and
/// keeps whatever value each of the other eight settings had.
#[verifier::external_body]
fn config_parallel_compilation(config: &mut Config, enable: bool)
    ensures
        *final(config) == config_with_parallel_compilation(*old(config), enable),
        holds_parallel_compilation(*final(config), enable),
        keeps_nan_canonicalization(*old(config), *final(config)),
        keeps_consume_fuel(*old(config), *final(config)),
        keeps_epoch_interruption(*old(config), *final(config)),
        keeps_wasm_threads(*old(config), *final(config)),
        keeps_wasm_simd(*old(config), *final(config)),
        keeps_wasm_relaxed_simd(*old(config), *final(config)),
        keeps_memory_reservation(*old(config), *final(config)),
        keeps_memory_guard_size(*old(config), *final(config)),
{
    config.parallel_compilation(enable);
}

/// Calls `Config::consume_fuel`. Claimed: the new configuration is
/// `config_with_consume_fuel` of the old one and the flag.
/// Also claimed, as the setter only assigns its own field, feature bit or
/// compiler setting: the new configuration holds the value just set, and
/// keeps whatever value each of the other eight settings had.
#[verifier::external_body]
fn config_consume_fuel(config: &mut Config, enable: bool)
    ensures
        *final(config) == config_with_consume_fuel(*old(config), enable),
        holds_consume_fuel(*final(config), enable),
        keeps_nan_canonicalization(*old(config), *final(config)),
        keeps_parallel_compilation(*old(config), *final(config)),
        keeps_epoch_interruption(*old(config), *final(config)),
        keeps_wasm_threads(*old(config), *final(config)),
        keeps_wasm_simd(*old(config), *final(config)),
        keeps_wasm_relaxed_simd(*old(config), *final(config)),
        keeps_memory_reservation(*old(config), *final(config)),
        keeps_memory_guard_size(*old(config), *final(config)),
{
    config.consume_fuel(enable);
}

/// Calls `Config::epoch_interruption`. Claimed: the new configuration is
/// `config_with_epoch_interruption` of the old one and the flag.
/// Also claimed, as the setter only assigns its own field, feature bit or
/// compiler setting: the new configuration holds the value just set, and
/// keeps whatever value each of the other eight settings had.
#[verifier::external_body]
fn config_epoch_interruption(config: &mut Config, enable: bool)
    ensures
        *final(config) == config_with_epoch_interruption(*old(config), enable),
        holds_epoch_interruption(*final(config), enable),
        keeps_nan_canonicalization(*old(config), *final(config)),
        keeps_parallel_compilation(*old(config), *final(config)),
        keeps_consume_fuel(*old(config), *final(config)),
        keeps_wasm_threads(*old(config), *final(config)),
        keeps_wasm_simd(*old(config), *final(config)),
        keeps_wasm_relaxed_simd(*old(config), *final(config)),
        keeps_memory_reservation(*old(config), *final(config)),
        keeps_memory_guard_size(*old(config), *final(config)),
{
    config.epoch_interruption(enable);
}

/// Calls `Config::wasm_threads`. Claimed: the new configuration is
/// `config_with_wasm_threads` of the old one and the flag.
/// Also claimed, as the setter only assigns its own field, feature bit or
/// compiler setting: the new configuration holds the value just set, and
/// keeps whatever value each of the other eight settings had.
#[verifier::external_body]
fn config_wasm_threads(config: &mut Config, enable: bool)
    ensures
        *final(config) == config_with_wasm_threads(*old(config), enable),
        holds_wasm_threads(*final(config), enable),
        keeps_nan_canonicalization(*old(config), *final(config)),
        keeps_parallel_compilation(*old(config), *final(config)),
        keeps_consume_fuel(*old(config), *final(config)),
        keeps_epoch_interruption(*old(config), *final(config)),
        keeps_wasm_simd(*old(config), *final(config)),
        keeps_wasm_relaxed_simd(*old(config), *final(config)),
        keeps_memory_reservation(*old(config), *final(config)),
        keeps_memory_guard_size(*old(config), *final(config)),
{
    config.wasm_threads(enable);
}

/// Calls `Config::wasm_simd`. Claimed: the new configuration is
/// `config_with_wasm_simd` of the old one and the flag.
/// Also claimed, as the setter only assigns its own field, feature bit or
/// compiler setting: the new configuration holds the value just set, and
/// keeps whatever value each of the other eight settings had.
#[verifier::external_body]
fn config_wasm_simd(config: &mut Config, enable: bool)
    ensures
        *final(config) == config_with_wasm_simd(*old(config), enable),
        holds_wasm_simd(*final(config), enable),
        keeps_nan_canonicalization(*old(config), *final(config)),
        keeps_parallel_compilation(*old(config), *final(config)),
        keeps_consume_fuel(*old(config), *final(config)),
        keeps_epoch_interruption(*old(config), *final(config)),
        keeps_wasm_threads(*old(config), *final(config)),
        keeps_wasm_relaxed_simd(*old(config), *final(config)),
        keeps_memory_reservation(*old(config), *final(config)),
        keeps_memory_guard_size(*old(config), *final(config)),
{
    config.wasm_simd(enable);
}

/// Calls `Config::wasm_relaxed_simd`. Claimed: the new configuration is
/// `config_with_wasm_relaxed_simd` of the old one and the flag.
/// Also claimed, as the setter only assigns its own field, feature bit or
/// compiler setting: the new configuration holds the value just set, and
/// keeps whatever value each of the other eight settings had.
#[verifier::external_body]
fn config_wasm_relaxed_simd(config: &mut Config, enable: bool)
    ensures
        *final(config) == config_with_wasm_relaxed_simd(*old(config), enable),
        holds_wasm_relaxed_simd(*final(config), enable),
        keeps_nan_canonicalization(*old(config), *final(config)),
        keeps_parallel_compilation(*old(config), *final(config)),
        keeps_consume_fuel(*old(config), *final(config)),
        keeps_epoch_interruption(*old(config), *final(config)),
        keeps_wasm_threads(*old(config), *final(config)),
        keeps_wasm_simd(*old(config), *final(config)),
        keeps_memory_reservation(*old(config), *final(config)),
        keeps_memory_guard_size(*old(config), *final(config)),
{
    config.wasm_relaxed_simd(enable);
}

/// Calls `Config::memory_reservation`. Claimed: the new configuration is
/// `config_with_memory_reservation` of the old one and the byte count.
/// Also claimed, as the setter only assigns its own field, feature bit or
/// compiler setting: the new configuration holds the value just set, and
/// keeps whatever value each of the other eight settings had.
#[verifier::external_body]
fn config_memory_reservation(config: &mut Config, bytes: u64)
    ensures
        *final(config) == config_with_memory_reservation(*old(config), bytes),
        holds_memory_reservation(*final(config), bytes),
        keeps_nan_canonicalization(*old(config), *final(config)),
        keeps_parallel_compilation(*old(config), *final(config)),
        keeps_consume_fuel(*old(config), *final(config)),
        keeps_epoch_interruption(*old(config), *final(config)),
        keeps_wasm_threads(*old(config), *final(config)),
        keeps_wasm_simd(*old(config), *final(config)),
        keeps_wasm_relaxed_simd(*old(config), *final(config)),
        keeps_memory_guard_size(*old(config), *final(config)),
{
    config.memory_reservation(bytes);
}

/// Calls `Config::memory_guard_size`. Claimed: the new configuration is
/// `config_with_memory_guard_size` of the old one and the byte count.
/// Also claimed, as the setter only assigns its own field, feature bit or
/// compiler setting: the new configuration holds the value just set, and
/// keeps whatever value each of the other eight settings had.
#[verifier::external_body]
fn config_memory_guard_size(config: &mut Config, bytes: u64)
    ensures
        *final(config) == config_with_memory_guard_size(*old(config), bytes),
        holds_memory_guard_size(*final(config), bytes),
        keeps_nan_canonicalization(*old(config), *final(config)),
        keeps_parallel_compilation(*old(config), *final(config)),
        keeps_consume_fuel(*old(config), *final(config)),
        keeps_epoch_interruption(*old(config), *final(config)),
        keeps_wasm_threads(*old(config), *final(config)),
        keeps_wasm_simd(*old(config), *final(config)),
        keeps_wasm_relaxed_simd(*old(config), *final(config)),
        keeps_memory_reservation(*old(config), *final(config)),
{
    config.memory_guard_size(bytes);
}

/// A configuration after the determinism-critical settings of
/// `spec_deterministic_settings` were applied to `config`, one setter after
/// another in the order `configure_deterministic` uses.
pub open spec fn deterministic_config(config: Config) -> Config {
    let s = spec_deterministic_settings();
    let c = config_with_nan_canonicalization(config, s.nan_canonicalization);
    let c = config_with_parallel_compilation(c, s.parallel_compilation);
    let c = config_with_consume_fuel(c, s.consume_fuel);
    let c = config_with_epoch_interruption(c, s.epoch_interruption);
    let c = config_with_wasm_threads(c, s.wasm_threads);
    let c = config_with_wasm_simd(c, s.wasm_simd);
    let c = config_with_wasm_relaxed_simd(c, s.wasm_relaxed_simd);
    let c = config_with_memory_reservation(c, s.memory_reservation);
    config_with_memory_guard_size(c, s.memory_guard_size)
}

/// Apply the determinism-critical settings (`deterministic_settings`) to a
/// wasmtime configuration.
///
/// The resulting configuration canonicalizes NaNs, compiles sequentially,
/// meters fuel, interrupts on epochs, has the threads and relaxed-SIMD
/// proposals disabled and SIMD enabled, reserves no address space ahead and
/// guards memory with 64 KiB.
pub fn configure_deterministic(config: &mut Config)
    ensures
        *final(config) == deterministic_config(*old(config)),
        holds_nan_canonicalization(*final(config), true),
        holds_parallel_compilation(*final(config), false),
        holds_consume_fuel(*final(config), true),
        holds_epoch_interruption(*final(config), true),
        holds_wasm_threads(*final(config), false),
        holds_wasm_simd(*final(config), true),
        holds_wasm_relaxed_simd(*final(config), false),
        holds_memory_reservation(*final(config), 0),
        holds_memory_guard_size(*final(config), 0x10000),
{
    let s = deterministic_settings();
    config_nan_canonicalization(config, s.nan_canonicalization);
    config_parallel_compilation(config, s.parallel_compilation);
    config_consume_fuel(config, s.consume_fuel);
    config_epoch_interruption(config, s.epoch_interruption);
    config_wasm_threads(config, s.wasm_threads);
    config_wasm_simd(config, s.wasm_simd);
    config_wasm_relaxed_simd(config, s.wasm_relaxed_simd);
    config_memory_reservation(config, s.memory_reservation);
    config_memory_guard_size(config, s.memory_guard_size);
}

/// The environment of a deterministic execution, as (name, value) pairs.
pub open spec fn deterministic_env() -> Seq<(Seq<char>, Seq<char>)> {
    seq![("LC_ALL"@, FIXED_LOCALE@), ("LANG"@, FIXED_LOCALE@), ("TZ"@, FIXED_TZ@)]
}

/// Environment variables to set for deterministic execution.
pub fn deterministic_env_vars() -> (r: Vec<(String, String)>)
    ensures
        r@.len() == deterministic_env().len(),
        forall|i: int|
            0 <= i < r@.len() ==> (#[trigger] r@[i]).0@ == deterministic_env()[i].0 && r@[i].1@
                == deterministic_env()[i].1,
{
    let mut v: Vec<(String, String)> = Vec::new();
    v.push((String::from_str("LC_ALL"), String::from_str(FIXED_LOCALE)));
    v.push((String::from_str("LANG"), String::from_str(FIXED_LOCALE)));
    v.push((String::from_str("TZ"), String::from_str(FIXED_TZ)));
    v
}

} // verus!
