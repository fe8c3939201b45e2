use rik::errors::RuntimeError;
use rik::workload::{parse_workload, WorkloadKind};

fn bytes(s: &str) -> Vec<u8> {
    s.as_bytes().to_vec()
}

const FUNCTION_JSON: &str = "{\n  \"api_version\": \"v0\",\n  \"kind\": \"function\",\n  \"name\": \"hello\",\n  \"spec\": {\n    \"function\": { \"rootfs_url\": \"http://registry/rootfs.ext4\" }\n  }\n}";

const PODS_JSON: &str = "{\n  \"api_version\": \"v0\",\n  \"kind\": \"pods\",\n  \"name\": \"workload-name\",\n  \"spec\": {\n    \"containers\": [\n      {\n        \"name\": \"<name>\",\n        \"image\": \"<image>\",\n        \"env\": [\n          {\n            \"name\": \"key1\",\n            \"value\": \"value1\"\n          },\n           {\n            \"name\": \"key2\",\n            \"value\": \"value2\"\n          }\n        ],\n        \"ports\": {\n          \"port\": 80,\n          \"target_port\": 80,\n          \"protocol\": \"TCP\",\n          \"type\": \"clusterIP|nodePort|loadBalancer\"\n        }\n      }\n    ]\n  }\n}";

#[test]
fn parse_function_workload() {
    let w = parse_workload(&bytes(FUNCTION_JSON)).unwrap();
    assert_eq!(w.api_version, b"v0".to_vec());
    assert_eq!(w.kind, WorkloadKind::Function);
    assert_eq!(w.name, b"hello".to_vec());
    assert_eq!(w.rootfs_url, Some(b"http://registry/rootfs.ext4".to_vec()));
}

#[test]
fn parse_pods_workload() {
    let w = parse_workload(&bytes(PODS_JSON)).unwrap();
    assert_eq!(w.api_version, b"v0".to_vec());
    assert_eq!(w.kind, WorkloadKind::Pods);
    assert_eq!(w.name, b"workload-name".to_vec());
    assert_eq!(w.rootfs_url, None);
}

#[test]
fn name_with_slash_rejected_at_parse() {
    let body = "{\"api_version\":\"v0\",\"kind\":\"pods\",\"name\":\"a/b\",\"spec\":{}}";
    assert_eq!(parse_workload(&bytes(body)), Err(RuntimeError::Parsing));
}

#[test]
fn empty_name_rejected_at_parse() {
    let body = "{\"api_version\":\"v0\",\"kind\":\"pods\",\"name\":\"\",\"spec\":{}}";
    assert_eq!(parse_workload(&bytes(body)), Err(RuntimeError::Parsing));
}

#[test]
fn unknown_kind_rejected() {
    let body = "{\"api_version\":\"v0\",\"kind\":\"cronjob\",\"name\":\"x\",\"spec\":{}}";
    assert_eq!(parse_workload(&bytes(body)), Err(RuntimeError::Parsing));
}

#[test]
fn missing_name_rejected() {
    let body = "{\"api_version\":\"v0\",\"kind\":\"pods\",\"spec\":{}}";
    assert_eq!(parse_workload(&bytes(body)), Err(RuntimeError::Parsing));
}

#[test]
fn malformed_json_rejected() {
    assert_eq!(parse_workload(&bytes("{\"kind\"")), Err(RuntimeError::Parsing));
    assert_eq!(parse_workload(&bytes("")), Err(RuntimeError::Parsing));
    assert_eq!(parse_workload(&bytes("[1,2]")), Err(RuntimeError::Parsing));
    assert_eq!(
        parse_workload(&bytes("{\"api_version\":\"v0\",\"kind\":\"pods\",\"name\":\"x\",\"spec\":{}} trailing")),
        Err(RuntimeError::Parsing)
    );
}

#[test]
fn function_without_url_rejected() {
    let body = "{\"api_version\":\"v0\",\"kind\":\"function\",\"name\":\"x\",\"spec\":{\"function\":{}}}";
    assert_eq!(parse_workload(&bytes(body)), Err(RuntimeError::Parsing));
}

#[test]
fn function_spec_absent_gives_no_url() {
    let body = "{\"api_version\":\"v0\",\"kind\":\"function\",\"name\":\"x\",\"spec\":{}}";
    let w = parse_workload(&bytes(body)).unwrap();
    assert_eq!(w.rootfs_url, None);
}

#[test]
fn containers_may_hold_floats_and_escapes() {
    let body = "{\"api_version\":\"v0\",\"kind\":\"pods\",\"name\":\"x\",\"spec\":{\"containers\":[{\"image\":\"a\\\"b\\n\",\"cpu\":0.5,\"mem\":1e9}]}}";
    let w = parse_workload(&bytes(body)).unwrap();
    assert_eq!(w.name, b"x".to_vec());
}

#[test]
fn kind_text_round_trip() {
    let w = parse_workload(&bytes(FUNCTION_JSON)).unwrap();
    assert_eq!(w.kind_text(), b"function".to_vec());
    let p = parse_workload(&bytes(PODS_JSON)).unwrap();
    assert_eq!(p.kind_text(), b"pods".to_vec());
}

#[test]
fn parser_agrees_with_serde_on_samples() {
    // The reference JSON reader accepts exactly what the verified scanner
    // accepts on these documents.
    for doc in [FUNCTION_JSON, PODS_JSON] {
        let ours = parse_workload(&bytes(doc)).is_ok();
        let serde_ok = serde_json::from_str::<serde_json::Value>(doc).is_ok();
        assert_eq!(ours, serde_ok);
    }
    let bad = "{\"api_version\":\"v0\",";
    assert!(serde_json::from_str::<serde_json::Value>(bad).is_err());
    assert!(parse_workload(&bytes(bad)).is_err());
}
