//! The structural schema that analysis reads: an immutable tree of nodes
//! holding the fields of an OpenAPI v3 validation schema that decide what
//! is generated.

use vstd::prelude::*;
use crate::text::{is_text_before, str_eq, text_before};

verus! {

/// A JSON number. Two numbers are equal exactly when their variants and
/// fields are.
#[derive(Debug, Clone, Copy, PartialEq, Eq, Structural)]
pub enum JsonNumber {
    /// A non-negative integer.
    PosInt(u64),
    /// A negative integer.
    NegInt(i64),
    /// A finite number that is no integer, held as its IEEE-754 bits with
    /// negative zero stored as zero.
    Float(u64),
}

/// One entry of a JSON object.
#[derive(Debug)]
pub struct JsonMember {
    pub key: String,
    pub value: JsonValue,
}

/// A JSON literal. The entries of an object are meant to stand in key order,
/// each key once; [`json_is_ordered`] tells whether they do.
#[derive(Debug)]
pub enum JsonValue {
    Null,
    Bool(bool),
    Number(JsonNumber),
    String(String),
    Array(Vec<JsonValue>),
    Object(Vec<JsonMember>),
}

/// A named member of an object schema.
#[derive(Debug)]
pub struct Property {
    /// The wire key of the property.
    pub name: String,
    /// The schema of its value.
    pub schema: SchemaNode,
}

/// `additionalProperties` and `additionalItems`: a schema or a plain switch.
#[derive(Debug)]
pub enum SchemaOrBool {
    Schema(Box<SchemaNode>),
    Bool(bool),
}

/// `items`: one schema for every element, or one schema per position.
#[derive(Debug)]
pub enum SchemaOrArray {
    Schema(Box<SchemaNode>),
    Schemas(Vec<SchemaNode>),
}

/// One node of the schema tree. `properties` is meant to stand in key order,
/// each key once, as a sorted map hands its entries out; the type does not
/// enforce it, and [`SchemaNode::is_ordered`] tells whether a tree keeps to
/// it. No function asks for it: each reads the properties in the order in
/// which they stand.
#[derive(Debug)]
pub struct SchemaNode {
    pub type_: Option<String>,
    pub format: Option<String>,
    pub description: Option<String>,
    pub enum_: Option<Vec<JsonValue>>,
    pub items: Option<SchemaOrArray>,
    pub additional_items: Option<SchemaOrBool>,
    pub properties: Option<Vec<Property>>,
    pub additional_properties: Option<SchemaOrBool>,
    pub required: Option<Vec<String>>,
    pub one_of: Option<Vec<SchemaNode>>,
    pub all_of: Option<Vec<SchemaNode>>,
    pub any_of: Option<Vec<SchemaNode>>,
    pub not: Option<Box<SchemaNode>>,
    pub x_kubernetes_int_or_string: Option<bool>,
    pub x_kubernetes_preserve_unknown_fields: Option<bool>,
    pub x_kubernetes_map_type: Option<String>,
}

/// Some property of the list carries the given key.
pub open spec fn has_property(props: Seq<Property>, key: Seq<char>) -> bool {
    exists|i: int| 0 <= i < props.len() && (#[trigger] props[i]).name@ == key
}

/// The declared type of a node, empty where the field is absent.
pub open spec fn type_of(node: SchemaNode) -> Seq<char> {
    match node.type_ {
        Some(t) => t@,
        None => Seq::empty(),
    }
}

/// The properties stand in the order of their keys, each key once.
pub open spec fn keys_ascend(props: Seq<Property>) -> bool {
    forall|i: int, j: int|
        0 <= i && j == i + 1 && j < props.len() ==> text_before(
            (#[trigger] props[i]).name@,
            (#[trigger] props[j]).name@,
        )
}

/// Whether the properties stand in the order of their keys, each key once.
pub fn keys_do_ascend(props: &Vec<Property>) -> (r: bool)
    ensures
        r == keys_ascend(props@),
{
    if props.len() < 2 {
        return true;
    }
    let mut i: usize = 0;
    while i + 1 < props.len()
        invariant
            i + 1 <= props.len(),
            forall|a: int, b: int|
                0 <= a && b == a + 1 && b <= i ==> text_before(
                    (#[trigger] props@[a]).name@,
                    (#[trigger] props@[b]).name@,
                ),
        decreases props.len() - i,
    {
        if !is_text_before(props[i].name.as_str(), props[i + 1].name.as_str()) {
            assert(!text_before(props@[i as int].name@, props@[i + 1].name@));
            return false;
        }
        i += 1;
    }
    true
}

/// The entries stand in the order of their keys, each key once.
pub open spec fn entry_keys_ascend(entries: Seq<JsonMember>) -> bool {
    forall|i: int, j: int|
        0 <= i && j == i + 1 && j < entries.len() ==> text_before(
            (#[trigger] entries[i]).key@,
            (#[trigger] entries[j]).key@,
        )
}

/// Every object in the literal holds its entries in the order of their keys,
/// each key once.
pub open spec fn json_ordered(value: JsonValue) -> bool
    decreases value, 1nat,
{
    match value {
        JsonValue::Array(xs) => jsons_ordered(xs@),
        JsonValue::Object(xs) => entry_keys_ascend(xs@) && entries_ordered(xs@),
        _ => true,
    }
}

/// Every literal of the list is ordered.
pub open spec fn jsons_ordered(xs: Seq<JsonValue>) -> bool
    decreases xs, 0nat,
{
    forall|i: int| 0 <= i < xs.len() ==> json_ordered(#[trigger] xs[i])
}

/// The value of every entry is ordered.
pub open spec fn entries_ordered(xs: Seq<JsonMember>) -> bool
    decreases xs, 0nat,
{
    forall|i: int| 0 <= i < xs.len() ==> json_ordered((#[trigger] xs[i]).value)
}

/// The schema tree is ordered: at the node and at every node below it the
/// properties stand in the order of their keys, each key once, and so do the
/// entries of every object among the `enum` literals. This is how a sorted
/// map hands its entries out. Analysis takes the properties in the order in
/// which they stand, so in an ordered tree the members of a definition come
/// in the order of their keys; and the exhaustive comparison of two property
/// maps goes position by position, which for ordered maps is key by key.
pub open spec fn node_ordered(node: SchemaNode) -> bool
    decreases node, 1nat,
{
    &&& match node.enum_ {
        Some(x) => jsons_ordered(x@),
        None => true,
    }
    &&& match node.items {
        Some(x) => items_ordered(x),
        None => true,
    }
    &&& match node.additional_items {
        Some(x) => either_ordered(x),
        None => true,
    }
    &&& match node.properties {
        Some(x) => keys_ascend(x@) && props_ordered(x@),
        None => true,
    }
    &&& match node.additional_properties {
        Some(x) => either_ordered(x),
        None => true,
    }
    &&& match node.one_of {
        Some(x) => nodes_ordered(x@),
        None => true,
    }
    &&& match node.all_of {
        Some(x) => nodes_ordered(x@),
        None => true,
    }
    &&& match node.any_of {
        Some(x) => nodes_ordered(x@),
        None => true,
    }
    &&& match node.not {
        Some(x) => node_ordered(*x),
        None => true,
    }
}

/// Every schema of the list is ordered.
pub open spec fn nodes_ordered(xs: Seq<SchemaNode>) -> bool
    decreases xs, 0nat,
{
    forall|i: int| 0 <= i < xs.len() ==> node_ordered(#[trigger] xs[i])
}

/// The schema of every property is ordered.
pub open spec fn props_ordered(xs: Seq<Property>) -> bool
    decreases xs, 0nat,
{
    forall|i: int| 0 <= i < xs.len() ==> node_ordered((#[trigger] xs[i]).schema)
}

/// The schema, or every schema of the list, is ordered.
pub open spec fn items_ordered(a: SchemaOrArray) -> bool
    decreases a, 0nat,
{
    match a {
        SchemaOrArray::Schema(x) => node_ordered(*x),
        SchemaOrArray::Schemas(xs) => nodes_ordered(xs@),
    }
}

/// The schema is ordered; a plain switch is.
pub open spec fn either_ordered(a: SchemaOrBool) -> bool
    decreases a, 0nat,
{
    match a {
        SchemaOrBool::Schema(x) => node_ordered(*x),
        SchemaOrBool::Bool(_) => true,
    }
}

/// Whether the entries stand in the order of their keys, each key once.
pub fn entry_keys_do_ascend(entries: &Vec<JsonMember>) -> (r: bool)
    ensures
        r == entry_keys_ascend(entries@),
{
    if entries.len() < 2 {
        return true;
    }
    let mut i: usize = 0;
    while i + 1 < entries.len()
        invariant
            i + 1 <= entries.len(),
            forall|a: int, b: int|
                0 <= a && b == a + 1 && b <= i ==> text_before(
                    (#[trigger] entries@[a]).key@,
                    (#[trigger] entries@[b]).key@,
                ),
        decreases entries.len() - i,
    {
        if !is_text_before(entries[i].key.as_str(), entries[i + 1].key.as_str()) {
            assert(!text_before(entries@[i as int].key@, entries@[i + 1].key@));
            return false;
        }
        i += 1;
    }
    true
}

/// Whether every object in the literal holds its entries in key order.
pub fn json_is_ordered(value: &JsonValue) -> (r: bool)
    ensures
        r == json_ordered(*value),
    decreases value, 1nat,
{
    match value {
        JsonValue::Array(xs) => jsons_are_ordered(xs),
        JsonValue::Object(xs) => entry_keys_do_ascend(xs) && entries_are_ordered(xs),
        _ => true,
    }
}

/// Whether every literal of the list is ordered.
fn jsons_are_ordered(xs: &Vec<JsonValue>) -> (r: bool)
    ensures
        r == jsons_ordered(xs@),
    decreases xs, 0nat,
{
    let mut i: usize = 0;
    while i < xs.len()
        invariant
            i <= xs.len(),
            forall|k: int| 0 <= k < i ==> json_ordered(#[trigger] xs@[k]),
        decreases xs.len() - i,
    {
        if !json_is_ordered(&xs[i]) {
            return false;
        }
        i += 1;
    }
    true
}

/// Whether the value of every entry is ordered.
fn entries_are_ordered(xs: &Vec<JsonMember>) -> (r: bool)
    ensures
        r == entries_ordered(xs@),
    decreases xs, 0nat,
{
    let mut i: usize = 0;
    while i < xs.len()
        invariant
            i <= xs.len(),
            forall|k: int| 0 <= k < i ==> json_ordered((#[trigger] xs@[k]).value),
        decreases xs.len() - i,
    {
        if !json_is_ordered(&xs[i].value) {
            return false;
        }
        i += 1;
    }
    true
}

/// Whether every schema of the list is ordered.
fn nodes_are_ordered(xs: &Vec<SchemaNode>) -> (r: bool)
    ensures
        r == nodes_ordered(xs@),
    decreases xs, 0nat,
{
    let mut i: usize = 0;
    while i < xs.len()
        invariant
            i <= xs.len(),
            forall|k: int| 0 <= k < i ==> node_ordered(#[trigger] xs@[k]),
        decreases xs.len() - i,
    {
        if !xs[i].is_ordered() {
            return false;
        }
        i += 1;
    }
    true
}

/// Whether the schema of every property is ordered.
fn props_are_ordered(xs: &Vec<Property>) -> (r: bool)
    ensures
        r == props_ordered(xs@),
    decreases xs, 0nat,
{
    let mut i: usize = 0;
    while i < xs.len()
        invariant
            i <= xs.len(),
            forall|k: int| 0 <= k < i ==> node_ordered((#[trigger] xs@[k]).schema),
        decreases xs.len() - i,
    {
        if !xs[i].schema.is_ordered() {
            return false;
        }
        i += 1;
    }
    true
}

/// Whether the schema, or every schema of the list, is ordered.
fn items_are_ordered(a: &SchemaOrArray) -> (r: bool)
    ensures
        r == items_ordered(*a),
    decreases a, 0nat,
{
    match a {
        SchemaOrArray::Schema(x) => x.is_ordered(),
        SchemaOrArray::Schemas(xs) => nodes_are_ordered(xs),
    }
}

/// Whether the schema is ordered; a plain switch is.
fn either_is_ordered(a: &SchemaOrBool) -> (r: bool)
    ensures
        r == either_ordered(*a),
    decreases a, 0nat,
{
    match a {
        SchemaOrBool::Schema(x) => x.is_ordered(),
        SchemaOrBool::Bool(_) => true,
    }
}

impl SchemaNode {
    /// Whether the tree is ordered: whether at this node and at every node
    /// below it the properties stand in the order of their keys, each key
    /// once, and the entries of every object among the `enum` literals too.
    pub fn is_ordered(&self) -> (r: bool)
        ensures
            r == node_ordered(*self),
        decreases self, 1nat,
    {
        let enums = match &self.enum_ {
            Some(x) => jsons_are_ordered(x),
            None => true,
        };
        if !enums {
            return false;
        }
        let items = match &self.items {
            Some(x) => items_are_ordered(x),
            None => true,
        };
        if !items {
            return false;
        }
        let additional_items = match &self.additional_items {
            Some(x) => either_is_ordered(x),
            None => true,
        };
        if !additional_items {
            return false;
        }
        let properties = match &self.properties {
            Some(x) => keys_do_ascend(x) && props_are_ordered(x),
            None => true,
        };
        if !properties {
            return false;
        }
        let additional_properties = match &self.additional_properties {
            Some(x) => either_is_ordered(x),
            None => true,
        };
        if !additional_properties {
            return false;
        }
        let one_of = match &self.one_of {
            Some(x) => nodes_are_ordered(x),
            None => true,
        };
        if !one_of {
            return false;
        }
        let all_of = match &self.all_of {
            Some(x) => nodes_are_ordered(x),
            None => true,
        };
        if !all_of {
            return false;
        }
        let any_of = match &self.any_of {
            Some(x) => nodes_are_ordered(x),
            None => true,
        };
        if !any_of {
            return false;
        }
        match &self.not {
            Some(x) => x.is_ordered(),
            None => true,
        }
    }

    /// A node with every field absent.
    pub fn empty() -> (node: SchemaNode)
        ensures
            node.type_ is None,
            node.format is None,
            node.description is None,
            node.enum_ is None,
            node.items is None,
            node.additional_items is None,
            node.properties is None,
            node.additional_properties is None,
            node.required is None,
            node.one_of is None,
            node.all_of is None,
            node.any_of is None,
            node.not is None,
            node.x_kubernetes_int_or_string is None,
            node.x_kubernetes_preserve_unknown_fields is None,
            node.x_kubernetes_map_type is None,
    {
        SchemaNode {
            type_: None,
            format: None,
            description: None,
            enum_: None,
            items: None,
            additional_items: None,
            properties: None,
            additional_properties: None,
            required: None,
            one_of: None,
            all_of: None,
            any_of: None,
            not: None,
            x_kubernetes_int_or_string: None,
            x_kubernetes_preserve_unknown_fields: None,
            x_kubernetes_map_type: None,
        }
    }

    /// Whether the declared type is `name`; an absent type counts as empty.
    pub fn type_is(&self, name: &str) -> (r: bool)
        ensures
            r == (type_of(*self) == name@),
    {
        match &self.type_ {
            Some(t) => str_eq(t.as_str(), name),
            None => {
                let r = str_eq("", name);
                proof {
                    reveal_strlit("");
                    assert(""@ == Seq::<char>::empty());
                }
                r
            },
        }
    }

    /// Whether the declared type is absent or empty.
    pub fn type_is_empty(&self) -> (r: bool)
        ensures
            r == (type_of(*self).len() == 0),
    {
        match &self.type_ {
            Some(t) => t.as_str().is_empty(),
            None => true,
        }
    }

    /// Whether the properties hold the key `key`.
    pub fn has_key(props: &Vec<Property>, key: &str) -> (r: bool)
        ensures
            r == has_property(props@, key@),
    {
        let mut i: usize = 0;
        while i < props.len()
            invariant
                i <= props.len(),
                forall|k: int| 0 <= k < i ==> (#[trigger] props@[k]).name@ != key@,
            decreases props.len() - i,
        {
            if str_eq(props[i].name.as_str(), key) {
                return true;
            }
            i += 1;
        }
        false
    }
}

impl Default for SchemaNode {
    fn default() -> (node: SchemaNode)
        ensures
            node.type_ is None,
            node.format is None,
            node.description is None,
            node.enum_ is None,
            node.items is None,
            node.additional_items is None,
            node.properties is None,
            node.additional_properties is None,
            node.required is None,
            node.one_of is None,
            node.all_of is None,
            node.any_of is None,
            node.not is None,
            node.x_kubernetes_int_or_string is None,
            node.x_kubernetes_preserve_unknown_fields is None,
            node.x_kubernetes_map_type is None,
    {
        SchemaNode::empty()
    }
}

} // verus!
