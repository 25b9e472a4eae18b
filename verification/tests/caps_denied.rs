use wasm_sandbox::caps::{Capability, CapabilitySet};
use wasm_sandbox::driver::{ExecMode, RunManifest, SandboxDriver};
use wasm_sandbox::limits::ResourceLimits;

#[test]
fn capability_set_operations() {
    let empty = CapabilitySet::empty();
    assert!(empty.is_empty());
    assert!(!empty.can_stdin());
    assert!(!empty.can_stdout());
    assert!(!empty.can_read_fs());
    assert!(!empty.can_tmp());

    let standard = CapabilitySet::standard_wasi();
    assert!(!standard.is_empty());
    assert!(standard.can_stdin());
    assert!(standard.can_stdout());
    assert!(standard.can_stderr());
    assert!(standard.can_read_fs());
    assert!(standard.can_tmp());
}

#[test]
fn grant_is_idempotent_and_visible() {
    let mut caps = CapabilitySet::empty();
    caps.grant(Capability::KvRead("bafy-cid".to_string()));
    caps.grant(Capability::KvRead("bafy-cid".to_string()));
    assert_eq!(caps.len(), 1);
    assert!(caps.has(&Capability::KvRead("bafy-cid".to_string())));
    assert!(!caps.has(&Capability::KvRead("other".to_string())));
    assert!(!caps.can_stdin());
}

#[test]
fn standard_wasi_has_five_members_in_canonical_order() {
    let standard = CapabilitySet::standard_wasi();
    assert_eq!(standard.len(), 5);
    let sorted = standard.sorted_caps();
    assert_eq!(
        sorted,
        vec![
            &Capability::FsRead("/inputs/**".to_string()),
            &Capability::FsTmp("/scratch".to_string()),
            &Capability::Stdin,
            &Capability::Stdout,
            &Capability::Stderr,
        ]
    );
    assert!(standard.has(&Capability::FsRead("/inputs/**".to_string())));
    assert!(!standard.has(&Capability::FsRead("/inputs".to_string())));
}

#[test]
fn sorted_caps_do_not_depend_on_grant_order() {
    let mut a = CapabilitySet::empty();
    a.grant(Capability::Stderr);
    a.grant(Capability::FsRead("/b".to_string()));
    a.grant(Capability::FsRead("/a".to_string()));
    a.grant(Capability::KvRead("k".to_string()));
    let mut b = CapabilitySet::empty();
    b.grant(Capability::KvRead("k".to_string()));
    b.grant(Capability::FsRead("/a".to_string()));
    b.grant(Capability::Stderr);
    b.grant(Capability::FsRead("/b".to_string()));
    assert_eq!(a.sorted_caps(), b.sorted_caps());
    assert_eq!(
        a.sorted_caps(),
        vec![
            &Capability::FsRead("/a".to_string()),
            &Capability::FsRead("/b".to_string()),
            &Capability::Stderr,
            &Capability::KvRead("k".to_string()),
        ]
    );
}

#[test]
fn clone_keeps_members() {
    let standard = CapabilitySet::standard_wasi();
    let copy = standard.clone();
    assert_eq!(copy.sorted_caps(), standard.sorted_caps());
    let default = CapabilitySet::default();
    assert!(default.is_empty());
}

fn manifest_with(caps: CapabilitySet, inputs: Option<&str>) -> RunManifest {
    RunManifest {
        mode: ExecMode::WasiCommand,
        limits: ResourceLimits::default(),
        capabilities: caps,
        inputs_dir: inputs.map(|s| s.to_string()),
        canonicalize_json_output: false,
    }
}

#[test]
fn empty_caps_plan_denies_everything() {
    let plan = SandboxDriver::plan(&manifest_with(CapabilitySet::empty(), Some("/data"))).unwrap();
    assert!(!plan.pipe_stdin);
    assert!(plan.inputs_mount.is_none());
    assert!(!plan.scratch_mount);
    assert!(plan.check_inputs_dir);
    assert_eq!(plan.entry_point, "_start");
}

#[test]
fn standard_caps_plan_grants_stdin_inputs_and_scratch() {
    let plan =
        SandboxDriver::plan(&manifest_with(CapabilitySet::standard_wasi(), Some("/data"))).unwrap();
    assert!(plan.pipe_stdin);
    assert_eq!(plan.inputs_mount.as_deref(), Some("/data"));
    assert!(plan.scratch_mount);
    assert_eq!(plan.fuel, 100_000_000);
    assert_eq!(plan.stdout_cap, 4 * 1024 * 1024);
    assert_eq!(plan.env.len(), 3);
    assert_eq!(plan.env[0], ("LC_ALL".to_string(), "en_US.UTF-8".to_string()));
    assert_eq!(plan.env[2], ("TZ".to_string(), "UTC".to_string()));
}

#[test]
fn no_fs_cap_plan_does_not_mount_inputs() {
    let mut caps = CapabilitySet::empty();
    caps.grant(Capability::Stdin);
    caps.grant(Capability::Stdout);
    caps.grant(Capability::Stderr);
    let plan = SandboxDriver::plan(&manifest_with(caps, Some("/data"))).unwrap();
    assert!(plan.pipe_stdin);
    assert!(plan.inputs_mount.is_none());
    assert!(!plan.scratch_mount);
}

#[test]
fn exported_function_plan_uses_its_name() {
    let mut m = manifest_with(CapabilitySet::empty(), None);
    m.mode = ExecMode::ExportedFunction { name: "run".to_string() };
    let plan = SandboxDriver::plan(&m).unwrap();
    assert_eq!(plan.entry_point, "run");
    assert!(!plan.check_inputs_dir);
}

#[test]
fn grants_hold_exactly_what_was_granted() {
    let mut s = CapabilitySet::empty();
    s.grant(Capability::Stdout);
    s.grant(Capability::FsRead("/inputs/a".to_string()));
    s.grant(Capability::Stdout);
    assert_eq!(s.len(), 2);
    assert!(!s.is_empty());
    assert_eq!(s.sorted_caps().len(), s.len());
    assert!(s.has(&Capability::Stdout));
    assert!(s.has(&Capability::FsRead("/inputs/a".to_string())));
    assert!(!s.has(&Capability::FsRead("/inputs/b".to_string())));
    assert!(!s.has(&Capability::Stdin));
}

#[test]
fn canonical_listing_follows_capability_order() {
    let mut s = CapabilitySet::empty();
    s.grant(Capability::KvRead("b".to_string()));
    s.grant(Capability::Stderr);
    s.grant(Capability::FsTmp("/scratch".to_string()));
    s.grant(Capability::FsRead("/inputs/z".to_string()));
    s.grant(Capability::FsRead("/inputs/a".to_string()));
    s.grant(Capability::Stdin);
    let listed = s.sorted_caps();
    for pair in listed.windows(2) {
        assert!(pair[0] < pair[1]);
    }
    assert!(Capability::FsRead("/z".to_string()) < Capability::FsTmp("/a".to_string()));
    assert!(Capability::Stdout < Capability::Stderr);
}
