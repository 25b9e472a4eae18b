use wasm_sandbox::capture::{StreamClosed, WriteCapped};
use wasm_sandbox::determinism::{deterministic_env_vars, deterministic_settings, FIXED_EPOCH_SECS, FIXED_LOCALE, FIXED_TZ};
use wasm_sandbox::json::{canonicalize_json, sort_json_value, JsonValue};
use wasm_sandbox::text::{compare_text, contains_text, decimal_string, hex_string, starts_with_text, TextOrder};
use wasm_sandbox::vfs::{dir_tree_size, is_within, DirTree, VfsConfig, VfsError};

#[test]
fn capture_keeps_first_bytes_and_closes_when_full() {
    let mut c = WriteCapped::new(5);
    assert_eq!(c.check_write(), Ok(5));
    assert_eq!(c.write(b"abc"), Ok(()));
    assert_eq!(c.check_write(), Ok(2));
    assert_eq!(c.write(b"defg"), Ok(()));
    assert_eq!(c.check_write(), Err(StreamClosed));
    assert_eq!(c.write(b"h"), Err(StreamClosed));
    assert_eq!(c.flush(), Ok(()));
    assert_eq!(c.into_bytes(), b"abcde".to_vec());
}

#[test]
fn zero_cap_capture_refuses_everything() {
    let mut c = WriteCapped::new(0);
    assert_eq!(c.write(b"x"), Err(StreamClosed));
    assert!(c.into_bytes().is_empty());
}

fn s(x: &str) -> String {
    x.to_string()
}

#[test]
fn json_objects_are_sorted_recursively() {
    let v = JsonValue::Object(vec![
        (s("z"), JsonValue::Number(s("1"))),
        (s("a"), JsonValue::Number(s("2"))),
        (s("m"), JsonValue::Object(vec![(s("c"), JsonValue::Number(s("3"))), (s("b"), JsonValue::Null)])),
        (s("array"), JsonValue::Array(vec![JsonValue::Bool(true), JsonValue::Object(vec![(s("y"), JsonValue::Str(s("q"))), (s("x"), JsonValue::Null)])])),
    ]);
    let sorted = sort_json_value(&v);
    let JsonValue::Object(entries) = sorted else { panic!("object expected") };
    let keys: Vec<&str> = entries.iter().map(|(k, _)| k.as_str()).collect();
    assert_eq!(keys, vec!["a", "array", "m", "z"]);
    let JsonValue::Object(inner) = &entries[2].1 else { panic!() };
    assert_eq!(inner[0].0, "b");
    assert_eq!(inner[1].0, "c");
    let JsonValue::Array(arr) = &entries[1].1 else { panic!() };
    assert!(matches!(arr[0], JsonValue::Bool(true)));
    let JsonValue::Object(deep) = &arr[1] else { panic!() };
    assert_eq!(deep[0].0, "x");
}

#[test]
fn json_equal_keys_keep_their_order() {
    let v = JsonValue::Object(vec![
        (s("k"), JsonValue::Number(s("1"))),
        (s("a"), JsonValue::Null),
        (s("k"), JsonValue::Number(s("2"))),
    ]);
    let JsonValue::Object(e) = sort_json_value(&v) else { panic!() };
    assert_eq!(e[0].0, "a");
    assert!(matches!(&e[1].1, JsonValue::Number(n) if n == "1"));
    assert!(matches!(&e[2].1, JsonValue::Number(n) if n == "2"));
}

#[test]
fn json_scalars_unchanged() {
    assert!(matches!(sort_json_value(&JsonValue::Str(s("hi"))), JsonValue::Str(t) if t == "hi"));
    assert!(matches!(sort_json_value(&JsonValue::Null), JsonValue::Null));
}

#[test]
fn text_helpers() {
    assert_eq!(compare_text("abc", "abd"), TextOrder::Less);
    assert_eq!(compare_text("abc", "ab"), TextOrder::Greater);
    assert_eq!(compare_text("", ""), TextOrder::Equal);
    assert_eq!(compare_text("Z", "a"), TextOrder::Less);
    assert_eq!(compare_text("é", "z"), TextOrder::Greater);
    assert!(starts_with_text("wasi_unstable", "wasi"));
    assert!(!starts_with_text("was", "wasi"));
    assert!(contains_text("trap: all fuel consumed", "fuel"));
    assert!(contains_text("abc", ""));
    assert!(!contains_text("ab", "abc"));
    assert_eq!(decimal_string(0), "0");
    assert_eq!(decimal_string(1234567890), "1234567890");
    assert_eq!(hex_string(&[0x00, 0x0f, 0xa5, 0xff]), "000fa5ff");
}

#[test]
fn determinism_constants_and_env() {
    assert_eq!(FIXED_EPOCH_SECS, 0);
    assert_eq!(FIXED_LOCALE, "en_US.UTF-8");
    assert_eq!(FIXED_TZ, "UTC");
    let env = deterministic_env_vars();
    assert_eq!(
        env,
        vec![
            (s("LC_ALL"), s("en_US.UTF-8")),
            (s("LANG"), s("en_US.UTF-8")),
            (s("TZ"), s("UTC")),
        ]
    );
    let st = deterministic_settings();
    assert!(st.nan_canonicalization && !st.parallel_compilation && st.consume_fuel);
    assert!(st.epoch_interruption && !st.wasm_threads && st.wasm_simd && !st.wasm_relaxed_simd);
    assert_eq!(st.memory_reservation, 0);
    assert_eq!(st.memory_guard_size, 0x10000);
}

#[test]
fn configure_deterministic_builds_an_engine() {
    let mut config = wasmtime::Config::new();
    wasm_sandbox::determinism::configure_deterministic(&mut config);
    assert!(wasmtime::Engine::new(&config).is_ok());
}

#[test]
fn configure_deterministic_changes_the_settings() {
    let mut config = wasmtime::Config::new();
    let before = format!("{:?}", config);
    wasm_sandbox::determinism::configure_deterministic(&mut config);
    let after = format!("{:?}", config);
    assert_ne!(before, after);
    assert!(after.contains("\"enable_nan_canonicalization\": \"true\""));
    assert!(after.contains("parallel_compilation: false"));
    assert!(after.contains("consume_fuel: true"));
    assert!(after.contains("epoch_interruption: true"));
    assert!(after.contains("memory_reservation: 0"));
    assert!(after.contains("memory_guard_size: 65536"));
}

#[test]
fn path_segments_rules() {
    assert!(is_within("/a/b/c", "/a/b"));
    assert!(is_within("/a/b", "/a/b/"));
    assert!(is_within("/a//b", "/a/b"));
    assert!(!is_within("/a/bc", "/a/b"));
    assert!(!is_within("a/b", "/a"));
    assert!(is_within("/anything", "/"));
}

#[test]
fn scratch_quota() {
    let cfg = VfsConfig::new(None, s("/tmp/scratch"), 100);
    assert!(cfg.check_scratch_quota(100).is_ok());
    match cfg.check_scratch_quota(101) {
        Err(VfsError::QuotaExceeded { used, quota }) => {
            assert_eq!(used, 101);
            assert_eq!(quota, 100);
        }
        other => panic!("unexpected {other:?}"),
    }
}

#[test]
fn inputs_dir_checks() {
    let none = VfsConfig::new(None, s("/tmp/s"), 1);
    assert!(none.check_inputs_dir(false, false).is_ok());
    let some = VfsConfig::new(Some(s("/data/in")), s("/tmp/s"), 1);
    assert!(some.check_inputs_dir(true, true).is_ok());
    match some.check_inputs_dir(false, false) {
        Err(VfsError::Setup(m)) => assert_eq!(m, "inputs directory does not exist: /data/in"),
        other => panic!("unexpected {other:?}"),
    }
    match some.check_inputs_dir(true, false) {
        Err(VfsError::Setup(m)) => assert_eq!(m, "inputs path is not a directory: /data/in"),
        other => panic!("unexpected {other:?}"),
    }
}

fn object_keys(v: &JsonValue) -> Vec<String> {
    match v {
        JsonValue::Object(entries) => entries.iter().map(|(k, _)| k.clone()).collect(),
        _ => panic!("not an object"),
    }
}

#[test]
fn canonical_keys_strictly_increase_when_unique() {
    let v = JsonValue::Object(vec![
        ("zeta".to_string(), JsonValue::Null),
        ("alpha".to_string(), JsonValue::Bool(true)),
        ("mid".to_string(), JsonValue::Object(vec![
            ("y".to_string(), JsonValue::Null),
            ("x".to_string(), JsonValue::Null),
        ])),
    ]);
    let r = sort_json_value(&v);
    assert_eq!(object_keys(&r), vec!["alpha".to_string(), "mid".to_string(), "zeta".to_string()]);
    match &r {
        JsonValue::Object(entries) => {
            assert_eq!(object_keys(&entries[1].1), vec!["x".to_string(), "y".to_string()]);
        }
        _ => panic!("not an object"),
    }
}

#[test]
fn directory_tree_size_sums_regular_files() {
    let tree = DirTree::Dir(vec![
        DirTree::File(3),
        DirTree::Other,
        DirTree::Dir(vec![DirTree::File(4), DirTree::Dir(vec![]), DirTree::File(10)]),
    ]);
    assert_eq!(dir_tree_size(&tree), Some(17));
    assert_eq!(dir_tree_size(&DirTree::Dir(vec![])), Some(0));
    assert_eq!(dir_tree_size(&DirTree::Other), Some(0));
    let full = DirTree::Dir(vec![DirTree::File(u64::MAX - 1), DirTree::File(1)]);
    assert_eq!(dir_tree_size(&full), Some(u64::MAX));
    let over = DirTree::Dir(vec![DirTree::File(u64::MAX), DirTree::Dir(vec![DirTree::File(1)])]);
    assert_eq!(dir_tree_size(&over), None);
}

#[test]
fn canonicalize_json_sorts_and_pretty_prints() {
    let out = canonicalize_json(b"{\"z\":1,\"a\":2,\"m\":{\"c\":3,\"b\":4},\"array\":[3,2,1]}").unwrap();
    let text = String::from_utf8(out).unwrap();
    assert_eq!(
        text,
        "{\n  \"a\": 2,\n  \"array\": [\n    3,\n    2,\n    1\n  ],\n  \"m\": {\n    \"b\": 4,\n    \"c\": 3\n  },\n  \"z\": 1\n}\n"
    );
    assert!(text.contains("\"a\""));
    assert_eq!(canonicalize_json(b"[1.5, \"x\", null, true]").unwrap(), b"[\n  1.5,\n  \"x\",\n  null,\n  true\n]\n".to_vec());
    assert_eq!(canonicalize_json(b"not json"), None);
    assert_eq!(canonicalize_json(b"{\"a\":1} trailing"), None);
    assert_eq!(canonicalize_json(&[0xff, 0xfe]), None);
}
