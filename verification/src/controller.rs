use vstd::prelude::*;

use crate::element::{
    elements_to_json, json_plain, spec_elements_json, spec_only_id_json, Element, ElementModel,
    OnlyId,
};
use crate::errors::RuntimeError;
use crate::json::{
    field_pos, is_digit, parse_fuel, skip_digits, skip_value, skip_ws, spec_field_pos, spec_fuel,
    spec_skip_digits, spec_skip_value, spec_skip_ws,
};
use crate::text::{copy_bytes, lit, push_bytes, spec_decimal};
use crate::workload::{parse_workload, spec_parse_workload, WorkloadDefinition, WorkloadKind};

verus! {

use vstd::string::StringSliceAdditionalSpecFns;

/// The actions the external API forwards to the internal one.
#[derive(Clone, Copy, PartialEq, Eq, Structural, Debug)]
pub enum CRUD {
    Create,
    Delete,
}

/// A message from the external API to the agent side of the controller.
#[derive(Clone, PartialEq, Eq, Debug)]
pub struct ApiChannel {
    pub action: CRUD,
    pub workload_id: Option<usize>,
    pub workload_definition: Option<WorkloadDefinition>,
    pub instance_id: Option<usize>,
}

/// What a route hands back to the HTTP layer: a status code, whether the
/// body is JSON, and the body itself.
#[derive(Clone, PartialEq, Eq, Debug)]
pub struct HttpResponse {
    pub status: u16,
    pub json: bool,
    pub body: Vec<u8>,
}

/// The request methods the controller routes.
#[derive(Clone, Copy, PartialEq, Eq, Structural, Debug)]
pub enum HttpMethod {
    Get,
    Post,
}

/// Route codes, one per registered path.
pub const ROUTE_INSTANCES_LIST: u32 = 1;

pub const ROUTE_TENANTS_LIST: u32 = 2;

pub const ROUTE_WORKLOADS_LIST: u32 = 3;

pub const ROUTE_INSTANCES_CREATE: u32 = 4;

pub const ROUTE_TENANTS_CREATE: u32 = 5;

pub const ROUTE_WORKLOADS_CREATE: u32 = 6;

pub const ROUTE_INSTANCES_DELETE: u32 = 7;

pub const ROUTE_TENANTS_DELETE: u32 = 8;

pub const ROUTE_WORKLOADS_DELETE: u32 = 9;

/// A path with its single leading slash removed, as the route matcher
/// normalizes both patterns and requests.
pub open spec fn strip_slash(s: Seq<char>) -> Seq<char> {
    if s.len() > 0 && s[0] == '/' {
        s.drop_first()
    } else {
        s
    }
}

/// A table with no routes.
pub open spec fn spec_empty_table() -> Map<Seq<char>, u32> {
    Map::empty()
}

/// The routes a matcher holds: each registered path, with its leading
/// slash removed, mapped to the code registered for it.
pub uninterp spec fn router_table(r: route_recognizer::Router<u32>) -> Map<Seq<char>, u32>;

/// Whether only literal routes were ever registered: none holding a `:`
/// or `*`, so that matching is exact path equality.
pub uninterp spec fn router_literal(r: route_recognizer::Router<u32>) -> bool;

#[verifier::external_type_specification]
#[verifier::external_body]
#[verifier::reject_recursive_types(T)]
pub struct ExRouter<T>(route_recognizer::Router<T>);

/// Relies on route_recognizer::Router::new: a fresh matcher recognizes
/// nothing.
#[verifier::external_body]
fn rr_new() -> (r: route_recognizer::Router<u32>)
    ensures
        router_table(r) == spec_empty_table(),
        router_literal(r),
{
    route_recognizer::Router::new()
}

/// Relies on route_recognizer::Router::add: registering a route with no
/// dynamic or wildcard segment maps exactly its path, with one leading
/// slash removed, to the handler; a repeated path keeps the last handler.
/// The route must be ASCII without NUL: the call slices the route at byte
/// offsets and maps characters through arithmetic that a multi-byte
/// character or a NUL would trip.
#[verifier::external_body]
fn rr_add(r: &mut route_recognizer::Router<u32>, route: &str, dest: u32)
    requires
        vstd::string::is_ascii(route),
        forall|i: int|
            0 <= i < route@.len() ==> route@[i] != ':' && route@[i] != '*' && route@[i] != '\0',
    ensures
        router_table(*final(r)) == router_table(*old(r)).insert(strip_slash(route@), dest),
        router_literal(*final(r)) == router_literal(*old(r)),
{
    r.add(route, dest)
}

/// Relies on route_recognizer::Router::recognize: with only literal
/// routes registered, a path matches exactly the route that spells it,
/// each with one leading slash removed, and yields its handler. A NUL in
/// the path is left out: the matcher's character arithmetic would trip
/// on it.
#[verifier::external_body]
fn rr_recognize(r: &route_recognizer::Router<u32>, path: &str) -> (res: Option<u32>)
    requires
        router_literal(*r),
        forall|i: int| 0 <= i < path@.len() ==> path@[i] != '\0',
    ensures
        res == (if router_table(*r).dom().contains(strip_slash(path@)) {
            Some(router_table(*r)[strip_slash(path@)])
        } else {
            None::<u32>
        }),
{
    match r.recognize(path) {
        Ok(m) => Some(**m.handler()),
        Err(_) => None,
    }
}

/// The table of GET routes.
pub open spec fn spec_get_table() -> Map<Seq<char>, u32> {
    spec_empty_table().insert(
        strip_slash("/api/v0/instances.list"@),
        ROUTE_INSTANCES_LIST,
    ).insert(strip_slash("/api/v0/tenants.list"@), ROUTE_TENANTS_LIST).insert(
        strip_slash("/api/v0/workloads.list"@),
        ROUTE_WORKLOADS_LIST,
    )
}

/// The table of POST routes.
pub open spec fn spec_post_table() -> Map<Seq<char>, u32> {
    spec_empty_table().insert(
        strip_slash("/api/v0/instances.create"@),
        ROUTE_INSTANCES_CREATE,
    ).insert(strip_slash("/api/v0/tenants.create"@), ROUTE_TENANTS_CREATE).insert(
        strip_slash("/api/v0/workloads.create"@),
        ROUTE_WORKLOADS_CREATE,
    ).insert(strip_slash("/api/v0/instances.delete"@), ROUTE_INSTANCES_DELETE).insert(
        strip_slash("/api/v0/tenants.delete"@),
        ROUTE_TENANTS_DELETE,
    ).insert(strip_slash("/api/v0/workloads.delete"@), ROUTE_WORKLOADS_DELETE)
}

/// The external API's route matcher: one table per method.
pub struct ApiRouter {
    pub get: route_recognizer::Router<u32>,
    pub post: route_recognizer::Router<u32>,
}

impl ApiRouter {
    /// Both tables hold exactly the registered routes.
    pub open spec fn wf(self) -> bool {
        &&& router_table(self.get) == spec_get_table()
        &&& router_table(self.post) == spec_post_table()
        &&& router_literal(self.get)
        &&& router_literal(self.post)
    }

    /// A matcher holding the controller's nine routes.
    pub fn new() -> (r: ApiRouter)
        ensures
            r.wf(),
    {
        proof {
            reveal_strlit("/api/v0/instances.list");
            reveal_strlit("/api/v0/tenants.list");
            reveal_strlit("/api/v0/workloads.list");
            reveal_strlit("/api/v0/instances.create");
            reveal_strlit("/api/v0/tenants.create");
            reveal_strlit("/api/v0/workloads.create");
            reveal_strlit("/api/v0/instances.delete");
            reveal_strlit("/api/v0/tenants.delete");
            reveal_strlit("/api/v0/workloads.delete");
        }
        let mut get = rr_new();
        rr_add(&mut get, "/api/v0/instances.list", ROUTE_INSTANCES_LIST);
        rr_add(&mut get, "/api/v0/tenants.list", ROUTE_TENANTS_LIST);
        rr_add(&mut get, "/api/v0/workloads.list", ROUTE_WORKLOADS_LIST);
        let mut post = rr_new();
        rr_add(&mut post, "/api/v0/instances.create", ROUTE_INSTANCES_CREATE);
        rr_add(&mut post, "/api/v0/tenants.create", ROUTE_TENANTS_CREATE);
        rr_add(&mut post, "/api/v0/workloads.create", ROUTE_WORKLOADS_CREATE);
        rr_add(&mut post, "/api/v0/instances.delete", ROUTE_INSTANCES_DELETE);
        rr_add(&mut post, "/api/v0/tenants.delete", ROUTE_TENANTS_DELETE);
        rr_add(&mut post, "/api/v0/workloads.delete", ROUTE_WORKLOADS_DELETE);
        ApiRouter { get, post }
    }

    /// The code of the route that `path` names under `method`, if any.
    /// The path must hold no NUL, which the matcher cannot digest.
    pub fn handle(&self, method: HttpMethod, path: &str) -> (r: Option<u32>)
        requires
            self.wf(),
            forall|i: int| 0 <= i < path@.len() ==> path@[i] != '\0',
        ensures
            r == (match method {
                HttpMethod::Get => if spec_get_table().dom().contains(strip_slash(path@)) {
                    Some(spec_get_table()[strip_slash(path@)])
                } else {
                    None::<u32>
                },
                HttpMethod::Post => if spec_post_table().dom().contains(strip_slash(path@)) {
                    Some(spec_post_table()[strip_slash(path@)])
                } else {
                    None::<u32>
                },
            }),
    {
        match method {
            HttpMethod::Get => rr_recognize(&self.get, path),
            HttpMethod::Post => rr_recognize(&self.post, path),
        }
    }
}

/// The external HTTP façade of the controller: it owns the route matcher;
/// the unverified shell accepts connections and hands requests through.
pub struct Server {
    pub router: ApiRouter,
}

impl Server {
    /// A server with the controller's routes ready.
    pub fn new() -> (r: Server)
        ensures
            r.router.wf(),
    {
        Server { router: ApiRouter::new() }
    }
}

/// The store path of a workload: `/workload/<kind>/<namespace>/<name>`,
/// with the single namespace `default`.
pub open spec fn spec_workload_path(kind: WorkloadKind, name: Seq<u8>) -> Seq<u8> {
    "/workload/".spec_bytes() + (if kind == WorkloadKind::Pods {
        "pods".spec_bytes()
    } else {
        "function".spec_bytes()
    }) + "/default/".spec_bytes() + name
}

/// The store path under which a workload is kept and checked for
/// duplicates.
pub fn workload_path(w: &WorkloadDefinition) -> (r: Vec<u8>)
    ensures
        r@ == spec_workload_path(w.kind, w.name@),
{
    let mut out = lit("/workload/");
    let kind = w.kind_text();
    push_bytes(&mut out, kind.as_slice());
    let ns = lit("/default/");
    push_bytes(&mut out, ns.as_slice());
    push_bytes(&mut out, w.name.as_slice());
    assert(out@ =~= spec_workload_path(w.kind, w.name@));
    out
}

/// The value of the decimal digits `s[a..e]`, most significant first.
pub open spec fn spec_digits_val(s: Seq<u8>, a: int, e: int) -> int
    decreases e - a,
{
    if e <= a {
        0
    } else {
        spec_digits_val(s, a, e - 1) * 10 + (s[e - 1] - 48)
    }
}

/// What parsing a `{"id":<n>}` body yields: the identifier, or nothing
/// when the text is not a well-formed document whose `id` is a plain
/// decimal integer that fits the machine's word.
pub open spec fn spec_parse_only_id(s: Seq<u8>) -> Option<int> {
    let i0 = spec_skip_ws(s, 0);
    if i0 >= s.len() || s[i0] != 123 {
        None
    } else {
        match spec_skip_value(s, i0, spec_fuel(s)) {
            None => None,
            Some(e) => {
                if spec_skip_ws(s, e) != s.len() {
                    None
                } else {
                    match spec_field_pos(s, i0, "id".spec_bytes()) {
                        None => None,
                        Some(v) => {
                            if v >= s.len() || !is_digit(s[v]) {
                                None
                            } else {
                                let de = spec_skip_digits(s, v);
                                if de < s.len() && (s[de] == 46 || s[de] == 101 || s[de] == 69) {
                                    None
                                } else if spec_digits_val(s, v, de) > usize::MAX {
                                    None
                                } else {
                                    Some(spec_digits_val(s, v, de))
                                }
                            }
                        },
                    }
                }
            },
        }
    }
}

/// The value of a digit run is never negative.
proof fn lemma_digits_val_nonneg(s: Seq<u8>, a: int, e: int)
    requires
        a <= e,
        forall|j: int| a <= j < e ==> is_digit(#[trigger] s[j]),
    ensures
        0 <= spec_digits_val(s, a, e),
    decreases e - a,
{
    if e > a {
        lemma_digits_val_nonneg(s, a, e - 1);
    }
}

/// Reading more digits never shrinks the value.
proof fn lemma_digits_val_mono(s: Seq<u8>, a: int, m: int, e: int)
    requires
        a <= m <= e,
        forall|j: int| a <= j < e ==> is_digit(#[trigger] s[j]),
    ensures
        spec_digits_val(s, a, e) >= spec_digits_val(s, a, m),
    decreases e - m,
{
    if e > m {
        lemma_digits_val_mono(s, a, m, e - 1);
        lemma_digits_val_nonneg(s, a, e - 1);
    }
}

/// Parse a `{"id":<n>}` body.
pub fn parse_only_id(s: &Vec<u8>) -> (r: Option<OnlyId>)
    requires
        2 * s@.len() + 8 <= usize::MAX,
    ensures
        match r {
            Some(o) => spec_parse_only_id(s@) == Some(o.id as int),
            None => spec_parse_only_id(s@) is None,
        },
{
    let i0 = skip_ws(s, 0);
    if i0 >= s.len() {
        return None;
    }
    if s[i0] != 123 {
        return None;
    }
    let e = match skip_value(s, i0, parse_fuel(s)) {
        None => {
            return None;
        },
        Some(e) => e,
    };
    if skip_ws(s, e) != s.len() {
        return None;
    }
    let v = match field_pos(s, i0, &lit("id")) {
        None => {
            return None;
        },
        Some(v) => v,
    };
    if v >= s.len() {
        return None;
    }
    if !(48 <= s[v] && s[v] <= 57) {
        return None;
    }
    let de = skip_digits(s, v);
    if de < s.len() && (s[de] == 46 || s[de] == 101 || s[de] == 69) {
        return None;
    }
    proof {
        lemma_skip_digits_are_digits(s@, v as int, de as int);
    }
    let mut acc: usize = 0;
    let mut k: usize = v;
    let mut overflow: bool = false;
    while k < de
        invariant
            v <= k <= de <= s@.len(),
            forall|j: int| v <= j < de ==> is_digit(#[trigger] s@[j]),
            !overflow ==> acc == spec_digits_val(s@, v as int, k as int),
            overflow ==> spec_digits_val(s@, v as int, de as int) > usize::MAX,
        decreases de - k,
    {
        let d: usize = (s[k] - 48) as usize;
        if acc > (usize::MAX - d) / 10 {
            proof {
                assert(10 * acc + d > usize::MAX) by (nonlinear_arith)
                    requires
                        acc > (usize::MAX - d) / 10,
                        d <= 9,
                ;
                lemma_digits_val_mono(s@, v as int, k + 1, de as int);
            }
            overflow = true;
            k = de;
        } else {
            acc = acc * 10 + d;
            k = k + 1;
        }
    }
    if overflow {
        return None;
    }
    Some(OnlyId { id: acc })
}

/// Between `i` and where `spec_skip_digits` stops, everything is a digit.
proof fn lemma_skip_digits_are_digits(s: Seq<u8>, i: int, e: int)
    requires
        0 <= i <= s.len(),
        e == spec_skip_digits(s, i),
    ensures
        i <= e <= s.len(),
        forall|j: int| i <= j < e ==> is_digit(#[trigger] s[j]),
    decreases s.len() - i,
{
    if i < s.len() && is_digit(s[i]) {
        lemma_skip_digits_are_digits(s, i + 1, e);
    }
}

/// The list route: serve every workload of the store, each under its
/// short name, or say that the store could not be read.
pub fn get(workloads: Option<Vec<Element>>) -> (r: HttpResponse)
    requires
        match workloads {
            Some(es) => forall|i: int| 0 <= i < es@.len() ==> json_plain((#[trigger] es@[i]).name@),
            None => true,
        },
    ensures
        match workloads {
            Some(es) => {
                &&& r.status == 200
                &&& r.json
                &&& r.body@ == spec_elements_json(spec_set_right_names(es.deep_view()))
            },
            None => {
                &&& r.status == 500
                &&& !r.json
                &&& r.body@ == "Cannot find workloads".spec_bytes()
            },
        },
{
    match workloads {
        Some(es) => {
            let ghost ms = es.deep_view();
            let renamed = elements_set_right_name(es);
            proof {
                assert forall|i: int| 0 <= i < renamed@.len() implies json_plain(
                    (#[trigger] renamed@[i]).name@,
                ) by {
                    assert(renamed.deep_view()[i] == spec_set_right_names(ms)[i]);
                    assert(renamed@[i].name@ == spec_last_segment(ms[i].name));
                    assert(json_plain(ms[i].name));
                    lemma_after_last_slash_bounds(ms[i].name, ms[i].name.len() as int);
                    lemma_plain_subrange(
                        ms[i].name,
                        spec_after_last_slash(ms[i].name, ms[i].name.len() as int),
                        ms[i].name.len() as int,
                    );
                }
            }
            let body = elements_to_json(&renamed);
            HttpResponse { status: 200, json: true, body }
        },
        None => HttpResponse { status: 500, json: false, body: lit("Cannot find workloads") },
    }
}

/// Where the last slash search stops is inside the text.
proof fn lemma_after_last_slash_bounds(s: Seq<u8>, e: int)
    requires
        0 <= e <= s.len(),
    ensures
        0 <= spec_after_last_slash(s, e) <= e,
    decreases e,
{
    if e > 0 && s[e - 1] != 47 {
        lemma_after_last_slash_bounds(s, e - 1);
    }
}

/// A slice of plain text is plain.
proof fn lemma_plain_subrange(s: Seq<u8>, a: int, b: int)
    requires
        json_plain(s),
        0 <= a <= b <= s.len(),
    ensures
        json_plain(s.subrange(a, b)),
{
    assert forall|j: int| 0 <= j < b - a implies (s.subrange(a, b)[j] != 34 && s.subrange(a, b)[j]
        != 92 && s.subrange(a, b)[j] >= 32) by {
        assert(s.subrange(a, b)[j] == s[a + j]);
    }
}

/// The position after the last slash of `s`, or 0 when it has none.
pub open spec fn spec_after_last_slash(s: Seq<u8>, e: int) -> int
    decreases e,
{
    if e <= 0 {
        0
    } else if s[e - 1] == 47 {
        e
    } else {
        spec_after_last_slash(s, e - 1)
    }
}

/// The short name of a stored workload: what follows the last slash of
/// its store path.
pub open spec fn spec_last_segment(s: Seq<u8>) -> Seq<u8> {
    s.subrange(spec_after_last_slash(s, s.len() as int), s.len() as int)
}

/// Each record renamed to its short name.
pub open spec fn spec_set_right_names(es: Seq<ElementModel>) -> Seq<ElementModel> {
    Seq::new(
        es.len(),
        |i: int| ElementModel { id: es[i].id, name: spec_last_segment(es[i].name), value: es[i].value },
    )
}

/// Rename every record of the store to its short name, leaving ids and
/// values alone.
pub fn elements_set_right_name(es: Vec<Element>) -> (r: Vec<Element>)
    ensures
        r.deep_view() == spec_set_right_names(es.deep_view()),
        r@.len() == es@.len(),
        forall|i: int|
            0 <= i < es@.len() ==> {
                &&& (#[trigger] r@[i]).id == es@[i].id
                &&& r@[i].value@ == es@[i].value@
                &&& r@[i].name@ == spec_last_segment(es@[i].name@)
            },
{
    let mut out: Vec<Element> = Vec::new();
    let n: usize = es.len();
    let mut i: usize = 0;
    while i < n
        invariant
            n == es@.len(),
            i <= n,
            out@.len() == i,
            forall|k: int|
                0 <= k < i ==> {
                    &&& (#[trigger] out@[k]).id == es@[k].id
                    &&& out@[k].value@ == es@[k].value@
                    &&& out@[k].name@ == spec_last_segment(es@[k].name@)
                },
        decreases n - i,
    {
        let name = last_segment(&es[i].name);
        out.push(
            Element { id: es[i].id, name, value: copy_bytes(&es[i].value) },
        );
        i = i + 1;
    }
    assert(out.deep_view() =~= spec_set_right_names(es.deep_view()));
    out
}

/// What follows the last slash of `s`; all of `s` when it has none.
pub fn last_segment(s: &Vec<u8>) -> (r: Vec<u8>)
    ensures
        r@ == spec_last_segment(s@),
{
    let n: usize = s.len();
    let mut e: usize = n;
    while e > 0
        invariant
            e <= n == s@.len(),
            spec_after_last_slash(s@, n as int) == spec_after_last_slash(s@, e as int),
        decreases e,
    {
        if s[e - 1] == 47 {
            return crate::json::sub_bytes(s, e, n);
        }
        e = e - 1;
    }
    crate::json::sub_bytes(s, 0, n)
}

/// The create route: store a parsed definition under its path. The
/// duplicate check and the insertion are the store's answers; a
/// definition that does not parse is reported to the routing layer.
pub fn create(content: &Vec<u8>, name_already_used: bool, inserted_id: Option<usize>) -> (r:
    Result<HttpResponse, RuntimeError>)
    requires
        2 * content@.len() + 8 <= usize::MAX,
    ensures
        match spec_parse_workload(content@) {
            None => r == Err::<HttpResponse, RuntimeError>(RuntimeError::Parsing),
            Some(m) => match r {
                Err(_) => false,
                Ok(resp) => {
                    if name_already_used {
                        &&& resp.status == 404
                        &&& resp.body@ == "Name already used".spec_bytes()
                    } else {
                        match inserted_id {
                            Some(id) => {
                                &&& resp.status == 200
                                &&& resp.json
                                &&& resp.body@ == spec_only_id_json(id as nat)
                            },
                            None => {
                                &&& resp.status == 500
                                &&& resp.body@ == "Cannot create workload".spec_bytes()
                            },
                        }
                    }
                },
            },
        },
{
    match parse_workload(content) {
        Ok(_) => {},
        Err(_) => {
            return Err(RuntimeError::Parsing);
        },
    }
    if name_already_used {
        return Ok(HttpResponse { status: 404, json: false, body: lit("Name already used") });
    }
    match inserted_id {
        Some(id) => {
            let only = OnlyId { id };
            Ok(HttpResponse { status: 200, json: true, body: only.to_json() })
        },
        None => Ok(
            HttpResponse { status: 500, json: false, body: lit("Cannot create workload") },
        ),
    }
}

/// The delete route: drop the workload whose identifier the body names.
/// When the store knows the identifier, the stored definition travels to
/// the internal API and the reply is empty; otherwise the reply says the
/// identifier is unknown.
pub fn delete(content: &Vec<u8>, found: Option<&Element>) -> (r: Result<
    (HttpResponse, Option<ApiChannel>),
    RuntimeError,
>)
    requires
        2 * content@.len() + 8 <= usize::MAX,
        match found {
            Some(el) => spec_parse_workload(el.value@) is Some && 2 * el.value@.len() + 8
                <= usize::MAX,
            None => true,
        },
    ensures
        match spec_parse_only_id(content@) {
            None => r == Err::<(HttpResponse, Option<ApiChannel>), RuntimeError>(
                RuntimeError::Parsing,
            ),
            Some(id) => match r {
                Err(_) => false,
                Ok((resp, act)) => match found {
                    Some(el) => {
                        &&& resp.status == 204
                        &&& resp.body@ == Seq::<u8>::empty()
                        &&& act matches Some(c)
                        &&& c.action == CRUD::Delete
                        &&& c.workload_id == Some(id as usize)
                        &&& c.instance_id is None
                        &&& c.workload_definition matches Some(d) && Some(d@)
                            == spec_parse_workload(el.value@)
                    },
                    None => {
                        &&& resp.status == 404
                        &&& resp.body@ == "Workload id ".spec_bytes() + spec_decimal(id as nat)
                            + " not found".spec_bytes()
                        &&& act is None
                    },
                },
            },
        },
{
    let only = match parse_only_id(content) {
        Some(o) => o,
        None => {
            return Err(RuntimeError::Parsing);
        },
    };
    match found {
        Some(el) => {
            let definition = match parse_workload(&el.value) {
                Ok(d) => d,
                Err(_) => {
                    return Err(RuntimeError::Parsing);
                },
            };
            let act = ApiChannel {
                action: CRUD::Delete,
                workload_id: Some(only.id),
                workload_definition: Some(definition),
                instance_id: None,
            };
            Ok((HttpResponse { status: 204, json: false, body: Vec::new() }, Some(act)))
        },
        None => {
            let mut body = lit("Workload id ");
            crate::element::push_decimal_usize(&mut body, only.id);
            let tail = lit(" not found");
            push_bytes(&mut body, tail.as_slice());
            assert(body@ =~= "Workload id ".spec_bytes() + spec_decimal(only.id as nat)
                + " not found".spec_bytes());
            Ok((HttpResponse { status: 404, json: false, body }, None))
        },
    }
}

} // verus!
