use rik::controller::{
    create, delete, get, parse_only_id, workload_path, ApiRouter, HttpMethod, Server,
    ROUTE_INSTANCES_CREATE, ROUTE_TENANTS_DELETE, ROUTE_WORKLOADS_CREATE, ROUTE_WORKLOADS_DELETE,
    ROUTE_WORKLOADS_LIST, CRUD,
};
use rik::element::{check_valid_json, element_to_json, elements_to_json, Element, OnlyId};
use rik::errors::RuntimeError;
use rik::workload::parse_workload;

#[test]
fn router_recognizes_registered_paths() {
    let router = ApiRouter::new();
    assert_eq!(
        router.handle(HttpMethod::Get, "/api/v0/workloads.list"),
        Some(ROUTE_WORKLOADS_LIST)
    );
    assert_eq!(
        router.handle(HttpMethod::Post, "/api/v0/workloads.create"),
        Some(ROUTE_WORKLOADS_CREATE)
    );
    assert_eq!(
        router.handle(HttpMethod::Post, "/api/v0/workloads.delete"),
        Some(ROUTE_WORKLOADS_DELETE)
    );
    assert_eq!(
        router.handle(HttpMethod::Post, "/api/v0/instances.create"),
        Some(ROUTE_INSTANCES_CREATE)
    );
    assert_eq!(
        router.handle(HttpMethod::Post, "/api/v0/tenants.delete"),
        Some(ROUTE_TENANTS_DELETE)
    );
}

#[test]
fn router_rejects_unknown_paths() {
    let router = ApiRouter::new();
    assert_eq!(router.handle(HttpMethod::Get, "/api/v0/nothing.here"), None);
    assert_eq!(router.handle(HttpMethod::Post, "/api/v0/workloads.list"), None);
    assert_eq!(router.handle(HttpMethod::Get, "/api/v0/workloads.create"), None);
    assert_eq!(router.handle(HttpMethod::Get, "/"), None);
}

#[test]
fn server_owns_a_ready_router() {
    let server = Server::new();
    assert_eq!(
        server.router.handle(HttpMethod::Get, "/api/v0/tenants.list"),
        Some(rik::controller::ROUTE_TENANTS_LIST)
    );
}

const PODS_JSON: &str = "{\"api_version\":\"v0\",\"kind\":\"pods\",\"name\":\"workload-name\",\"spec\":{\"containers\":[]}}";

#[test]
fn create_rejects_bad_body() {
    let r = create(&b"nope".to_vec(), false, Some(1));
    assert_eq!(r, Err(RuntimeError::Parsing));
}

#[test]
fn create_duplicate_name() {
    let resp = create(&PODS_JSON.as_bytes().to_vec(), true, None).unwrap();
    assert_eq!(resp.status, 404);
    assert_eq!(resp.body, b"Name already used".to_vec());
}

#[test]
fn create_success_returns_id() {
    let resp = create(&PODS_JSON.as_bytes().to_vec(), false, Some(7)).unwrap();
    assert_eq!(resp.status, 200);
    assert!(resp.json);
    assert_eq!(resp.body, b"{\"id\":7}".to_vec());
}

#[test]
fn create_insert_failure() {
    let resp = create(&PODS_JSON.as_bytes().to_vec(), false, None).unwrap();
    assert_eq!(resp.status, 500);
    assert_eq!(resp.body, b"Cannot create workload".to_vec());
}

#[test]
fn workload_store_path() {
    let w = parse_workload(&PODS_JSON.as_bytes().to_vec()).unwrap();
    assert_eq!(
        workload_path(&w),
        b"/workload/pods/default/workload-name".to_vec()
    );
}

#[test]
fn delete_found_workload() {
    let el = Element {
        id: 3,
        name: b"/workload/pods/default/workload-name".to_vec(),
        value: PODS_JSON.as_bytes().to_vec(),
    };
    let (resp, act) = delete(&b"{\"id\":3}".to_vec(), Some(&el)).unwrap();
    assert_eq!(resp.status, 204);
    assert_eq!(resp.body, Vec::<u8>::new());
    let act = act.unwrap();
    assert_eq!(act.action, CRUD::Delete);
    assert_eq!(act.workload_id, Some(3));
    assert_eq!(act.instance_id, None);
    assert_eq!(act.workload_definition.unwrap().name, b"workload-name".to_vec());
}

#[test]
fn delete_unknown_workload() {
    let (resp, act) = delete(&b"{\"id\":42}".to_vec(), None).unwrap();
    assert_eq!(resp.status, 404);
    assert_eq!(resp.body, b"Workload id 42 not found".to_vec());
    assert!(act.is_none());
}

#[test]
fn delete_rejects_bad_body() {
    assert_eq!(delete(&b"{}".to_vec(), None), Err(RuntimeError::Parsing));
    assert_eq!(delete(&b"{\"id\":\"x\"}".to_vec(), None), Err(RuntimeError::Parsing));
}

#[test]
fn parse_only_id_reads_plain_ids() {
    assert_eq!(parse_only_id(&b"{\"id\":0}".to_vec()).unwrap().id, 0);
    assert_eq!(parse_only_id(&b"{ \"id\" : 123456789 }".to_vec()).unwrap().id, 123456789);
    assert_eq!(parse_only_id(&b"{\"id\":1234567890}".to_vec()).unwrap().id, 1234567890);
    assert!(parse_only_id(&b"{\"id\":-3}".to_vec()).is_none());
    // not a plain integer
    assert!(parse_only_id(&b"{\"id\":1.5}".to_vec()).is_none());
    assert!(parse_only_id(&b"{\"id\":1e3}".to_vec()).is_none());
    // past the machine's word
    assert!(parse_only_id(&b"{\"id\":99999999999999999999999999}".to_vec()).is_none());
}

#[test]
fn get_serves_workloads_under_short_names() {
    let els = vec![
        Element {
            id: 1,
            name: b"/workload/pods/default/alpha".to_vec(),
            value: b"{\"kind\":\"pods\"}".to_vec(),
        },
        Element { id: 2, name: b"beta".to_vec(), value: b"null".to_vec() },
    ];
    let resp = get(Some(els));
    assert_eq!(resp.status, 200);
    assert!(resp.json);
    assert_eq!(
        resp.body,
        b"[{\"id\":1,\"name\":\"alpha\",\"value\":{\"kind\":\"pods\"}},{\"id\":2,\"name\":\"beta\",\"value\":null}]"
            .to_vec()
    );
}

#[test]
fn get_reports_store_failure() {
    let resp = get(None);
    assert_eq!(resp.status, 500);
    assert_eq!(resp.body, b"Cannot find workloads".to_vec());
}

#[test]
fn element_serialization() {
    let el = Element { id: 9, name: b"thing".to_vec(), value: b"[1,2]".to_vec() };
    assert_eq!(
        element_to_json(&el),
        b"{\"id\":9,\"name\":\"thing\",\"value\":[1,2]}".to_vec()
    );
    assert_eq!(elements_to_json(&Vec::new()), b"[]".to_vec());
}

#[test]
fn element_line_and_updates() {
    let mut el = Element { id: 4, name: b"a".to_vec(), value: b"true".to_vec() };
    assert_eq!(
        String::from_utf8(el.to_line()).unwrap(),
        "Id: 4, Name: a, Value: true"
    );
    el.set_name(b"b".to_vec());
    el.set_value(b"false".to_vec());
    assert_eq!(el.name, b"b".to_vec());
    assert_eq!(el.value, b"false".to_vec());
}

#[test]
fn only_id_round_trip() {
    let body = OnlyId { id: 31 }.to_json();
    assert_eq!(body, b"{\"id\":31}".to_vec());
    assert_eq!(parse_only_id(&body).unwrap().id, 31);
}

#[test]
fn json_validity_scanner() {
    assert!(check_valid_json(&b" {\"a\": [1, -2, true, null, \"x\"]} ".to_vec()));
    assert!(check_valid_json(&b"42".to_vec()));
    assert!(check_valid_json(&b"1.5".to_vec()));
    assert!(check_valid_json(&b"-2.5e-3".to_vec()));
    assert!(check_valid_json(&b"6E8".to_vec()));
    assert!(check_valid_json(&b"\"\\n\"".to_vec()));
    assert!(check_valid_json(&b"\"a\\\"b\\u00e9\"".to_vec()));
    assert!(!check_valid_json(&b"{\"a\":}".to_vec()));
    assert!(!check_valid_json(&b"[1,]".to_vec()));
    assert!(!check_valid_json(&b"1.".to_vec()));
    assert!(!check_valid_json(&b"1e".to_vec()));
    assert!(!check_valid_json(&b"\"\\x\"".to_vec()));
    assert!(!check_valid_json(&b"\"\\u12\"".to_vec()));
}

#[test]
fn duplicate_keys_first_wins() {
    assert_eq!(parse_only_id(&b"{\"id\":1,\"id\":2}".to_vec()).unwrap().id, 1);
    let body = "{\"api_version\":\"v0\",\"kind\":\"pods\",\"name\":\"first\",\"name\":\"second\",\"spec\":{}}";
    let w = parse_workload(&body.as_bytes().to_vec()).unwrap();
    assert_eq!(w.name, b"first".to_vec());
}
