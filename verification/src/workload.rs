use vstd::prelude::*;

use crate::errors::RuntimeError;
use crate::json::{
    field_pos, parse_fuel, skip_value, skip_ws, spec_field_pos, spec_fuel, spec_skip_value,
    spec_skip_ws, spec_string_field, string_field,
};
use crate::text::lit;

verus! {

use vstd::string::StringSliceAdditionalSpecFns;

/// The two flavors a workload can take: a set of OCI-style containers, or
/// a function backed by a microVM.
#[derive(Clone, Copy, PartialEq, Eq, Structural, Debug)]
pub enum WorkloadKind {
    Pods,
    Function,
}

/// A declarative workload specification, as the control plane hands it to
/// a worker: the fields of the wire format that the runtime reads.
#[derive(Clone, PartialEq, Eq, Debug)]
pub struct WorkloadDefinition {
    pub api_version: Vec<u8>,
    pub kind: WorkloadKind,
    /// Unique per namespace; never holds a slash, so it is safe inside
    /// filesystem paths.
    pub name: Vec<u8>,
    /// `spec.function.rootfs_url`, for the function flavor.
    pub rootfs_url: Option<Vec<u8>>,
}

/// The mathematical shape of a workload definition.
#[verifier::ext_equal]
pub struct WorkloadModel {
    pub api_version: Seq<u8>,
    pub kind: WorkloadKind,
    pub name: Seq<u8>,
    pub rootfs_url: Option<Seq<u8>>,
}

impl View for WorkloadDefinition {
    type V = WorkloadModel;

    open spec fn view(&self) -> WorkloadModel {
        WorkloadModel {
            api_version: self.api_version@,
            kind: self.kind,
            name: self.name@,
            rootfs_url: match self.rootfs_url {
                Some(ref u) => Some(u@),
                None => None,
            },
        }
    }
}

/// A workload name is acceptable when it is not empty and holds no slash.
pub open spec fn valid_name(name: Seq<u8>) -> bool {
    name.len() > 0 && forall|i: int| 0 <= i < name.len() ==> name[i] != 47
}

/// The kind named by `b`, if any.
pub open spec fn spec_kind_of(b: Seq<u8>) -> Option<WorkloadKind> {
    if b == "pods".spec_bytes() {
        Some(WorkloadKind::Pods)
    } else if b == "function".spec_bytes() {
        Some(WorkloadKind::Function)
    } else {
        None
    }
}

/// What parsing a serialized workload definition yields: the definition,
/// or nothing when the text is not a well-formed document of the schema.
/// The document must be one JSON object with string members `api_version`,
/// `kind` and `name`, an object member `spec`, inside it an optional
/// object member `function` with a string `rootfs_url`; `kind` must name
/// one of the two flavors, and `name` must be non-empty with no slash.
/// Strings anywhere in the document may use JSON escapes, but the
/// schema's own keys and captured values are matched byte for byte, so an
/// escape spelling of one of those exact tokens reads as different text.
pub open spec fn spec_parse_workload(s: Seq<u8>) -> Option<WorkloadModel> {
    let i0 = spec_skip_ws(s, 0);
    if i0 >= s.len() || s[i0] != 123 {
        None
    } else {
        match spec_skip_value(s, i0, spec_fuel(s)) {
            None => None,
            Some(e) => {
                if spec_skip_ws(s, e) != s.len() {
                    None
                } else {
                    match (
                        spec_string_field(s, i0, "api_version".spec_bytes()),
                        spec_string_field(s, i0, "kind".spec_bytes()),
                        spec_string_field(s, i0, "name".spec_bytes()),
                        spec_field_pos(s, i0, "spec".spec_bytes()),
                    ) {
                        (Some(av), Some(kb), Some(nm), Some(sp)) => {
                            match spec_kind_of(kb) {
                                None => None,
                                Some(kind) => {
                                    if !valid_name(nm) {
                                        None
                                    } else if sp >= s.len() || s[sp] != 123 {
                                        None
                                    } else {
                                        match spec_field_pos(s, sp, "function".spec_bytes()) {
                                            None => Some(
                                                WorkloadModel {
                                                    api_version: av,
                                                    kind,
                                                    name: nm,
                                                    rootfs_url: None,
                                                },
                                            ),
                                            Some(fp) => {
                                                if fp >= s.len() || s[fp] != 123 {
                                                    None
                                                } else {
                                                    match spec_string_field(
                                                        s,
                                                        fp,
                                                        "rootfs_url".spec_bytes(),
                                                    ) {
                                                        None => None,
                                                        Some(u) => Some(
                                                            WorkloadModel {
                                                                api_version: av,
                                                                kind,
                                                                name: nm,
                                                                rootfs_url: Some(u),
                                                            },
                                                        ),
                                                    }
                                                }
                                            },
                                        }
                                    }
                                },
                            }
                        },
                        _ => None,
                    }
                }
            },
        }
    }
}

impl WorkloadDefinition {
    /// The rootfs URL of the function flavor, where the definition has one.
    pub fn get_rootfs_url(&self) -> (r: Option<&Vec<u8>>)
        ensures
            match r {
                Some(u) => self@.rootfs_url == Some(u@),
                None => self@.rootfs_url is None,
            },
    {
        match &self.rootfs_url {
            Some(u) => Some(u),
            None => None,
        }
    }

    /// The kind, spelled as the wire format spells it.
    pub fn kind_text(&self) -> (r: Vec<u8>)
        ensures
            self.kind == WorkloadKind::Pods ==> r@ == "pods".spec_bytes(),
            self.kind == WorkloadKind::Function ==> r@ == "function".spec_bytes(),
    {
        match self.kind {
            WorkloadKind::Pods => lit("pods"),
            WorkloadKind::Function => lit("function"),
        }
    }
}

/// Parse a serialized workload definition. Returns the definition exactly
/// when the text is a well-formed document of the schema, and the
/// `Parsing` error otherwise; in particular a workload name holding a
/// slash is rejected here.
pub fn parse_workload(s: &Vec<u8>) -> (r: Result<WorkloadDefinition, RuntimeError>)
    requires
        2 * s@.len() + 8 <= usize::MAX,
    ensures
        match spec_parse_workload(s@) {
            Some(m) => r matches Ok(w) && w@ == m,
            None => r == Err::<WorkloadDefinition, RuntimeError>(RuntimeError::Parsing),
        },
{
    let i0 = skip_ws(s, 0);
    if i0 >= s.len() {
        return Err(RuntimeError::Parsing);
    }
    if s[i0] != 123 {
        return Err(RuntimeError::Parsing);
    }
    let e = match skip_value(s, i0, parse_fuel(s)) {
        None => {
            return Err(RuntimeError::Parsing);
        },
        Some(e) => e,
    };
    if skip_ws(s, e) != s.len() {
        return Err(RuntimeError::Parsing);
    }
    let av = match string_field(s, i0, &lit("api_version")) {
        None => {
            return Err(RuntimeError::Parsing);
        },
        Some(v) => v,
    };
    let kb = match string_field(s, i0, &lit("kind")) {
        None => {
            return Err(RuntimeError::Parsing);
        },
        Some(v) => v,
    };
    let nm = match string_field(s, i0, &lit("name")) {
        None => {
            return Err(RuntimeError::Parsing);
        },
        Some(v) => v,
    };
    let sp = match field_pos(s, i0, &lit("spec")) {
        None => {
            return Err(RuntimeError::Parsing);
        },
        Some(v) => v,
    };
    let kind = if crate::text::bytes_eq(&kb, &lit("pods")) {
        WorkloadKind::Pods
    } else if crate::text::bytes_eq(&kb, &lit("function")) {
        WorkloadKind::Function
    } else {
        return Err(RuntimeError::Parsing);
    };
    if !check_name(&nm) {
        return Err(RuntimeError::Parsing);
    }
    if sp >= s.len() {
        return Err(RuntimeError::Parsing);
    }
    if s[sp] != 123 {
        return Err(RuntimeError::Parsing);
    }
    let rootfs_url = match field_pos(s, sp, &lit("function")) {
        None => None,
        Some(fp) => {
            if fp >= s.len() {
                return Err(RuntimeError::Parsing);
            }
            if s[fp] != 123 {
                return Err(RuntimeError::Parsing);
            }
            match string_field(s, fp, &lit("rootfs_url")) {
                None => {
                    return Err(RuntimeError::Parsing);
                },
                Some(u) => Some(u),
            }
        },
    };
    Ok(WorkloadDefinition { api_version: av, kind, name: nm, rootfs_url })
}

/// Whether `name` is acceptable as a workload name.
pub fn check_name(name: &Vec<u8>) -> (r: bool)
    ensures
        r == valid_name(name@),
{
    if name.len() == 0 {
        return false;
    }
    let n: usize = name.len();
    let mut i: usize = 0;
    while i < n
        invariant
            n == name@.len(),
            i <= n,
            forall|j: int| 0 <= j < i ==> name@[j] != 47,
        decreases n - i,
    {
        if name[i] == 47 {
            return false;
        }
        i = i + 1;
    }
    true
}

/// A name with a slash never parses: every definition this module hands
/// out has a non-empty, slash-free name.
pub proof fn lemma_name_rejected_at_parse(s: Seq<u8>, m: WorkloadModel)
    requires
        spec_parse_workload(s) == Some(m),
    ensures
        valid_name(m.name),
        forall|i: int| 0 <= i < m.name.len() ==> m.name[i] != 47,
{
}

/// A scheduling decision handed to a worker: an opaque instance
/// identifier and the serialized definition to realize.
#[derive(Clone, PartialEq, Eq, Debug)]
pub struct InstanceScheduling {
    pub instance_id: Vec<u8>,
    pub definition: Vec<u8>,
}

} // verus!
