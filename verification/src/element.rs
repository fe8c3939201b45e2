use vstd::prelude::*;

use crate::json::{parse_fuel, skip_value, skip_ws, spec_fuel, spec_skip_value, spec_skip_ws};
use crate::text::{lit, push_bytes, spec_decimal};

verus! {

use vstd::string::StringSliceAdditionalSpecFns;

/// A bare identifier, as the create route answers and the delete route
/// expects: `{"id":<n>}` on the wire.
#[derive(Clone, Copy, PartialEq, Eq, Structural, Debug)]
pub struct OnlyId {
    pub id: usize,
}

/// Whether `s` is one complete well-formed document of the accepted JSON
/// subset.
pub open spec fn spec_valid_json(s: Seq<u8>) -> bool {
    let i0 = spec_skip_ws(s, 0);
    match spec_skip_value(s, i0, spec_fuel(s)) {
        Some(e) => spec_skip_ws(s, e) == s.len(),
        None => false,
    }
}

/// Whether `s` is one complete well-formed document of the accepted JSON
/// subset.
pub fn check_valid_json(s: &Vec<u8>) -> (r: bool)
    requires
        2 * s@.len() + 8 <= usize::MAX,
    ensures
        r == spec_valid_json(s@),
{
    let i0 = skip_ws(s, 0);
    match skip_value(s, i0, parse_fuel(s)) {
        Some(e) => skip_ws(s, e) == s.len(),
        None => false,
    }
}

/// A persisted record of the controller: an identifier, a path-like name,
/// and a JSON value, kept as its serialized text.
#[derive(Clone, PartialEq, Eq, Debug)]
pub struct Element {
    pub id: usize,
    pub name: Vec<u8>,
    pub value: Vec<u8>,
}

/// The mathematical shape of a record.
#[verifier::ext_equal]
pub struct ElementModel {
    pub id: usize,
    pub name: Seq<u8>,
    pub value: Seq<u8>,
}

impl View for Element {
    type V = ElementModel;

    open spec fn view(&self) -> ElementModel {
        ElementModel { id: self.id, name: self.name@, value: self.value@ }
    }
}

impl DeepView for Element {
    type V = ElementModel;

    open spec fn deep_view(&self) -> ElementModel {
        self.view()
    }
}

/// Append the decimal digits of a `usize` to `out`.
pub fn push_decimal_usize(out: &mut Vec<u8>, x: usize)
    ensures
        final(out)@ == old(out)@ + spec_decimal(x as nat),
    decreases x,
{
    if x < 10 {
        out.push((48 + x) as u8);
        assert(out@ =~= old(out)@ + spec_decimal(x as nat));
    } else {
        push_decimal_usize(out, x / 10);
        out.push((48 + x % 10) as u8);
        assert(out@ =~= old(out)@ + spec_decimal(x as nat));
    }
}

impl Element {
    /// A record from its parts; the value must be well-formed JSON text,
    /// as the store only ever holds serialized values.
    pub fn new(id: usize, name: Vec<u8>, value: Vec<u8>) -> (r: Element)
        requires
            spec_valid_json(value@),
        ensures
            r.id == id,
            r.name@ == name@,
            r.value@ == value@,
    {
        Element { id, name, value }
    }

    /// Replace the record's name.
    pub fn set_name(&mut self, name: Vec<u8>)
        ensures
            final(self).id == old(self).id,
            final(self).name@ == name@,
            final(self).value == old(self).value,
    {
        self.name = name;
    }

    /// Replace the record's value with new serialized JSON text.
    pub fn set_value(&mut self, value: Vec<u8>)
        requires
            spec_valid_json(value@),
        ensures
            final(self).id == old(self).id,
            final(self).name == old(self).name,
            final(self).value@ == value@,
    {
        self.value = value;
    }

    /// The record on one line, `Id: <id>, Name: <name>, Value: <value>`,
    /// as the controller logs it.
    pub fn to_line(&self) -> (r: Vec<u8>)
        ensures
            r@ == "Id: ".spec_bytes() + spec_decimal(self.id as nat) + ", Name: ".spec_bytes()
                + self.name@ + ", Value: ".spec_bytes() + self.value@,
    {
        let mut out = lit("Id: ");
        push_decimal_usize(&mut out, self.id);
        let sep1 = lit(", Name: ");
        push_bytes(&mut out, sep1.as_slice());
        push_bytes(&mut out, self.name.as_slice());
        let sep2 = lit(", Value: ");
        push_bytes(&mut out, sep2.as_slice());
        push_bytes(&mut out, self.value.as_slice());
        assert(out@ =~= "Id: ".spec_bytes() + spec_decimal(self.id as nat) + ", Name: ".spec_bytes()
            + self.name@ + ", Value: ".spec_bytes() + self.value@);
        out
    }
}

/// The wire form of an identifier, `{"id":<n>}`.
pub open spec fn spec_only_id_json(id: nat) -> Seq<u8> {
    "{\"id\":".spec_bytes() + spec_decimal(id) + "}".spec_bytes()
}

impl OnlyId {
    /// Serialize to `{"id":<n>}`.
    pub fn to_json(&self) -> (r: Vec<u8>)
        ensures
            r@ == spec_only_id_json(self.id as nat),
    {
        let mut out = lit("{\"id\":");
        push_decimal_usize(&mut out, self.id);
        let tail = lit("}");
        push_bytes(&mut out, tail.as_slice());
        assert(out@ =~= spec_only_id_json(self.id as nat));
        out
    }
}

/// Bytes that may sit inside a JSON string body without escaping: no
/// quote, no backslash, no control character.
pub open spec fn json_plain(s: Seq<u8>) -> bool {
    forall|i: int| 0 <= i < s.len() ==> s[i] != 34 && s[i] != 92 && s[i] >= 32
}

/// The wire form of a record, `{"id":<n>,"name":"<name>","value":<value>}`.
pub open spec fn spec_element_json(e: ElementModel) -> Seq<u8> {
    "{\"id\":".spec_bytes() + spec_decimal(e.id as nat) + ",\"name\":\"".spec_bytes() + e.name
        + "\",\"value\":".spec_bytes() + e.value + "}".spec_bytes()
}

/// Serialize one record. The name must be plain, as stored names are;
/// the value is serialized JSON already and is embedded as it is.
pub fn element_to_json(e: &Element) -> (r: Vec<u8>)
    requires
        json_plain(e.name@),
    ensures
        r@ == spec_element_json(e@),
{
    let mut out = lit("{\"id\":");
    push_decimal_usize(&mut out, e.id);
    let k1 = lit(",\"name\":\"");
    push_bytes(&mut out, k1.as_slice());
    push_bytes(&mut out, e.name.as_slice());
    let k2 = lit("\",\"value\":");
    push_bytes(&mut out, k2.as_slice());
    push_bytes(&mut out, e.value.as_slice());
    let tail = lit("}");
    push_bytes(&mut out, tail.as_slice());
    assert(out@ =~= spec_element_json(e@));
    out
}

/// The comma-separated wire forms of a row of records.
pub open spec fn spec_elements_items(es: Seq<ElementModel>) -> Seq<u8>
    decreases es.len(),
{
    if es.len() == 0 {
        Seq::empty()
    } else if es.len() == 1 {
        spec_element_json(es[0])
    } else {
        spec_elements_items(es.drop_last()) + ",".spec_bytes() + spec_element_json(es.last())
    }
}

/// The wire form of a row of records, `[<e1>,<e2>,...]`.
pub open spec fn spec_elements_json(es: Seq<ElementModel>) -> Seq<u8> {
    "[".spec_bytes() + spec_elements_items(es) + "]".spec_bytes()
}

/// Serialize a row of records as a JSON array.
pub fn elements_to_json(es: &Vec<Element>) -> (r: Vec<u8>)
    requires
        forall|i: int| 0 <= i < es@.len() ==> json_plain((#[trigger] es@[i]).name@),
    ensures
        r@ == spec_elements_json(es.deep_view()),
{
    let mut out = lit("[");
    let n: usize = es.len();
    let mut i: usize = 0;
    while i < n
        invariant
            n == es@.len(),
            i <= n,
            forall|k: int| 0 <= k < es@.len() ==> json_plain((#[trigger] es@[k]).name@),
            out@ == "[".spec_bytes() + spec_elements_items(es.deep_view().subrange(0, i as int)),
        decreases n - i,
    {
        if i > 0 {
            let comma = lit(",");
            push_bytes(&mut out, comma.as_slice());
        }
        let ej = element_to_json(&es[i]);
        push_bytes(&mut out, ej.as_slice());
        i = i + 1;
        proof {
            let post = es.deep_view().subrange(0, i as int);
            assert(post.drop_last() =~= es.deep_view().subrange(0, i - 1));
            assert(out@ =~= "[".spec_bytes() + spec_elements_items(post));
        }
    }
    let tail = lit("]");
    push_bytes(&mut out, tail.as_slice());
    assert(es.deep_view().subrange(0, n as int) =~= es.deep_view());
    assert(out@ =~= spec_elements_json(es.deep_view()));
    out
}

} // verus!
