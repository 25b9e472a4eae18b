//! A deterministic WebAssembly sandbox: capability model, resource limits,
//! deterministic randomness, virtual filesystem rules and the decisions the
//! sandbox driver takes around one execution.

pub mod capture;
pub mod caps;
pub mod determinism;
pub mod digest;
pub mod driver;
pub mod json;
pub mod limits;
pub mod observe;
pub mod prng;
pub mod text;
pub mod vfs;
