use wasm_sandbox::caps::CapabilitySet;
use wasm_sandbox::capture::WriteCapped;
use wasm_sandbox::driver::{validate_imports, ExecMode, RunManifest, SandboxDriver, SandboxError};
use wasm_sandbox::limits::{LimitsError, ResourceLimits};
use wasm_sandbox::observe::RuntimeCertificate;
use wasm_sandbox::vfs::{VfsConfig, VfsError};

#[test]
fn module_with_disallowed_imports_rejected() {
    let imports = vec![("env".to_string(), "some_host_func".to_string())];
    let result = validate_imports(&imports);
    assert!(result.is_err(), "module with non-WASI imports should be rejected");
    match result.unwrap_err() {
        SandboxError::Validation(msg) => {
            assert!(msg.contains("disallowed"), "error should mention disallowed import, got: {msg}");
            assert_eq!(msg, "module imports from disallowed namespace: env::some_host_func");
        }
        other => panic!("unexpected error {other:?}"),
    }
}

#[test]
fn wasi_imports_accepted() {
    let imports = vec![
        ("wasi_snapshot_preview1".to_string(), "fd_write".to_string()),
        ("wasi_unstable".to_string(), "fd_read".to_string()),
        ("wasi:io/streams".to_string(), "write".to_string()),
    ];
    assert!(validate_imports(&imports).is_ok());
    assert!(validate_imports(&Vec::new()).is_ok());
}

#[test]
fn first_disallowed_import_is_reported() {
    let imports = vec![
        ("wasi_snapshot_preview1".to_string(), "fd_write".to_string()),
        ("env".to_string(), "a".to_string()),
        ("host".to_string(), "b".to_string()),
    ];
    match validate_imports(&imports) {
        Err(SandboxError::Validation(msg)) => {
            assert_eq!(msg, "module imports from disallowed namespace: env::a")
        }
        other => panic!("unexpected {other:?}"),
    }
}

#[test]
fn path_traversal_blocked() {
    // "/tmp/sandbox_test_base" joined with "../../etc/passwd" resolves to "/etc/passwd".
    let result = VfsConfig::validate_path(
        "/tmp/sandbox_test_base",
        "../../etc/passwd",
        "/tmp/sandbox_test_base",
        "/etc/passwd",
    );
    assert!(result.is_err(), "path traversal should be blocked");
    match result.unwrap_err() {
        VfsError::PathTraversal(msg) => {
            assert!(msg.contains("traversal"), "error should mention traversal, got: {msg}");
            assert_eq!(
                msg,
                "path traversal detected: ../../etc/passwd escapes /tmp/sandbox_test_base"
            );
        }
        other => panic!("unexpected {other:?}"),
    }
}

#[test]
fn path_inside_base_accepted() {
    let ok = VfsConfig::validate_path(
        "/tmp/base",
        "legit.txt",
        "/tmp/base",
        "/tmp/base/legit.txt",
    );
    assert_eq!(ok.unwrap(), "/tmp/base/legit.txt");
    let same = VfsConfig::validate_path("/tmp/base", ".", "/tmp/base", "/tmp/base");
    assert_eq!(same.unwrap(), "/tmp/base");
}

#[test]
fn sibling_with_common_prefix_is_outside() {
    let r = VfsConfig::validate_path("/tmp/base", "../base2/x", "/tmp/base", "/tmp/base2/x");
    assert!(matches!(r, Err(VfsError::PathTraversal(_))));
}

#[test]
fn stdout_cap_enforced() {
    let mut out = WriteCapped::new(1024);
    let chunk = [b'A'; 128];
    for _ in 0..100 {
        let _ = out.write(&chunk);
    }
    let bytes = out.into_bytes();
    assert!(bytes.len() <= 1024, "stdout should be capped at 1024 bytes, got {}", bytes.len());
    assert_eq!(bytes.len(), 1024);
}

fn zero_fuel_manifest() -> RunManifest {
    RunManifest {
        mode: ExecMode::WasiCommand,
        limits: ResourceLimits { fuel: 0, ..ResourceLimits::default() },
        capabilities: CapabilitySet::empty(),
        inputs_dir: None,
        canonicalize_json_output: false,
    }
}

#[test]
fn zero_fuel_rejected_by_validation() {
    let result = SandboxDriver::plan(&zero_fuel_manifest());
    assert!(result.is_err(), "zero fuel should be rejected");
    match result.unwrap_err() {
        SandboxError::Limits(LimitsError::InvalidLimit(m)) => assert_eq!(m, "fuel must be > 0"),
        other => panic!("unexpected {other:?}"),
    }
}

#[test]
fn runtime_certificate_present() {
    let flags = SandboxDriver::certificate_flags(&ResourceLimits::default());
    let cert = RuntimeCertificate::for_runtime(Some(b"executable bytes"), "0.1.0", flags);
    assert!(cert.runtime_hash.starts_with("b3:"), "certificate should have b3: hash prefix");
    assert!(!cert.flags.is_empty());
    assert_eq!(
        cert.runtime_hash,
        format!("b3:{}", blake3::hash(b"executable bytes").to_hex())
    );
    assert_eq!(cert.wasmtime_version, "wasmtime-0.1.0");
    let unknown = RuntimeCertificate::for_runtime(None, "0.1.0", Vec::new());
    assert_eq!(unknown.runtime_hash, "b3:unknown");
}
