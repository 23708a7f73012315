//! Comparing the schema of a property with the schema that an override rule
//! asks for. Only the fields that decide what is generated are compared:
//! `type`, `enum`, `items`, `additionalItems`, `properties`,
//! `additionalProperties`, `required`, `oneOf`, `allOf`, `anyOf`, `not` and
//! the three extension fields.
//!
//! There are two comparisons. The exhaustive one asks that every compared
//! field is equal: lists position by position, maps key by key. The subset
//! one asks that what the rule holds is found in the property: an absent
//! field of the rule fits anything, each element of a list of the rule fits
//! some element of the property's list, whatever the lengths of the two, and
//! each key of a map of the rule is a key of the property's map, which holds
//! no fewer keys, with a fitting value.

use vstd::prelude::*;
use crate::schema::{JsonMember, JsonValue, Property, SchemaNode, SchemaOrArray, SchemaOrBool};
use crate::text::{opt_text, str_eq, texts};

verus! {

/// Two JSON literals are equal.
pub open spec fn json_equal(a: JsonValue, b: JsonValue) -> bool
    decreases a, 1nat,
{
    match (a, b) {
        (JsonValue::Null, JsonValue::Null) => true,
        (JsonValue::Bool(x), JsonValue::Bool(y)) => x == y,
        (JsonValue::Number(x), JsonValue::Number(y)) => x == y,
        (JsonValue::String(x), JsonValue::String(y)) => x@ == y@,
        (JsonValue::Array(xs), JsonValue::Array(ys)) => jsons_equal(xs@, ys@),
        (JsonValue::Object(xs), JsonValue::Object(ys)) => entries_equal(xs@, ys@),
        _ => false,
    }
}

/// Two lists of JSON literals are equal position by position.
pub open spec fn jsons_equal(xs: Seq<JsonValue>, ys: Seq<JsonValue>) -> bool
    decreases xs, 0nat,
{
    &&& xs.len() == ys.len()
    &&& forall|i: int| 0 <= i < xs.len() ==> json_equal(#[trigger] xs[i], ys[i])
}

/// Two JSON objects hold the same keys with equal values.
pub open spec fn entries_equal(xs: Seq<JsonMember>, ys: Seq<JsonMember>) -> bool
    decreases xs, 0nat,
{
    &&& xs.len() == ys.len()
    &&& forall|i: int|
        0 <= i < xs.len() ==> (#[trigger] xs[i]).key@ == ys[i].key@ && json_equal(
            xs[i].value,
            ys[i].value,
        )
}

/// What the JSON literal `a` holds is found in `b`. `null` fits anything.
pub open spec fn json_subset(a: JsonValue, b: JsonValue) -> bool
    decreases a, 1nat,
{
    match (a, b) {
        (JsonValue::Null, _) => true,
        (JsonValue::Bool(x), JsonValue::Bool(y)) => x == y,
        (JsonValue::Number(x), JsonValue::Number(y)) => x == y,
        (JsonValue::String(x), JsonValue::String(y)) => x@ == y@,
        (JsonValue::Array(xs), JsonValue::Array(ys)) => jsons_subset(xs@, ys@),
        (JsonValue::Object(xs), JsonValue::Object(ys)) => entries_subset(xs@, ys@),
        _ => false,
    }
}

/// The JSON literal `x` fits some element of `ys`.
pub open spec fn json_fits_some(x: JsonValue, ys: Seq<JsonValue>) -> bool
    decreases x, 2nat,
{
    exists|j: int| 0 <= j < ys.len() && json_subset(x, #[trigger] ys[j])
}

/// Every element of `xs` fits some element of `ys`, wherever it stands
/// there and however long either list is.
pub open spec fn jsons_subset(xs: Seq<JsonValue>, ys: Seq<JsonValue>) -> bool
    decreases xs, 0nat,
{
    forall|i: int| 0 <= i < xs.len() ==> json_fits_some(#[trigger] xs[i], ys)
}

/// The entry `x` has its key in `ys`, with a value that it fits.
pub open spec fn entry_fits_some(x: JsonMember, ys: Seq<JsonMember>) -> bool
    decreases x, 2nat,
{
    exists|j: int|
        0 <= j < ys.len() && (#[trigger] ys[j]).key@ == x.key@ && json_subset(x.value, ys[j].value)
}

/// Every entry of `xs` has its key in `ys`, which is no shorter, with a value
/// that it fits.
pub open spec fn entries_subset(xs: Seq<JsonMember>, ys: Seq<JsonMember>) -> bool
    decreases xs, 0nat,
{
    &&& xs.len() <= ys.len()
    &&& forall|i: int| 0 <= i < xs.len() ==> entry_fits_some(#[trigger] xs[i], ys)
}

/// The text `x` is an element of `ys`.
pub open spec fn text_in(x: Seq<char>, ys: Seq<String>) -> bool {
    exists|j: int| 0 <= j < ys.len() && (#[trigger] ys[j])@ == x
}

/// Every text of `xs` is an element of `ys`, however long either list is.
pub open spec fn texts_subset(xs: Seq<String>, ys: Seq<String>) -> bool {
    forall|i: int| 0 <= i < xs.len() ==> text_in((#[trigger] xs[i])@, ys)
}

/// The rule's optional text fits the property's.
pub open spec fn opt_text_subset(a: Option<String>, b: Option<String>) -> bool {
    a is None || opt_text(a) == opt_text(b)
}

/// The rule's optional flag fits the property's.
pub open spec fn opt_flag_subset(a: Option<bool>, b: Option<bool>) -> bool {
    a is None || a == b
}

/// Every compared field of the two schemas is equal.
pub open spec fn node_exhaustive(a: SchemaNode, b: SchemaNode) -> bool
    decreases a, 1nat,
{
    &&& opt_text(a.type_) == opt_text(b.type_)
    &&& match (a.enum_, b.enum_) {
        (Some(x), Some(y)) => jsons_equal(x@, y@),
        (None, None) => true,
        _ => false,
    }
    &&& match (a.items, b.items) {
        (Some(x), Some(y)) => items_exhaustive(x, y),
        (None, None) => true,
        _ => false,
    }
    &&& match (a.additional_items, b.additional_items) {
        (Some(x), Some(y)) => either_exhaustive(x, y),
        (None, None) => true,
        _ => false,
    }
    &&& match (a.properties, b.properties) {
        (Some(x), Some(y)) => props_exhaustive(x@, y@),
        (None, None) => true,
        _ => false,
    }
    &&& match (a.additional_properties, b.additional_properties) {
        (Some(x), Some(y)) => either_exhaustive(x, y),
        (None, None) => true,
        _ => false,
    }
    &&& match (a.required, b.required) {
        (Some(x), Some(y)) => texts(x@) == texts(y@),
        (None, None) => true,
        _ => false,
    }
    &&& match (a.one_of, b.one_of) {
        (Some(x), Some(y)) => nodes_exhaustive(x@, y@),
        (None, None) => true,
        _ => false,
    }
    &&& match (a.all_of, b.all_of) {
        (Some(x), Some(y)) => nodes_exhaustive(x@, y@),
        (None, None) => true,
        _ => false,
    }
    &&& match (a.any_of, b.any_of) {
        (Some(x), Some(y)) => nodes_exhaustive(x@, y@),
        (None, None) => true,
        _ => false,
    }
    &&& match (a.not, b.not) {
        (Some(x), Some(y)) => node_exhaustive(*x, *y),
        (None, None) => true,
        _ => false,
    }
    &&& a.x_kubernetes_int_or_string == b.x_kubernetes_int_or_string
    &&& a.x_kubernetes_preserve_unknown_fields == b.x_kubernetes_preserve_unknown_fields
    &&& opt_text(a.x_kubernetes_map_type) == opt_text(b.x_kubernetes_map_type)
}

/// Two lists of schemas are equal position by position.
pub open spec fn nodes_exhaustive(xs: Seq<SchemaNode>, ys: Seq<SchemaNode>) -> bool
    decreases xs, 0nat,
{
    &&& xs.len() == ys.len()
    &&& forall|i: int| 0 <= i < xs.len() ==> node_exhaustive(#[trigger] xs[i], ys[i])
}

/// Two property maps hold the same keys with equal schemas.
pub open spec fn props_exhaustive(xs: Seq<Property>, ys: Seq<Property>) -> bool
    decreases xs, 0nat,
{
    &&& xs.len() == ys.len()
    &&& forall|i: int|
        0 <= i < xs.len() ==> (#[trigger] xs[i]).name@ == ys[i].name@ && node_exhaustive(
            xs[i].schema,
            ys[i].schema,
        )
}

/// Both are schemas, equal in every compared field, or both are lists of
/// schemas, equal position by position.
pub open spec fn items_exhaustive(a: SchemaOrArray, b: SchemaOrArray) -> bool
    decreases a, 0nat,
{
    match (a, b) {
        (SchemaOrArray::Schema(x), SchemaOrArray::Schema(y)) => node_exhaustive(*x, *y),
        (SchemaOrArray::Schemas(xs), SchemaOrArray::Schemas(ys)) => nodes_exhaustive(xs@, ys@),
        _ => false,
    }
}

/// Both are schemas, equal in every compared field, or both are the same
/// switch.
pub open spec fn either_exhaustive(a: SchemaOrBool, b: SchemaOrBool) -> bool
    decreases a, 0nat,
{
    match (a, b) {
        (SchemaOrBool::Schema(x), SchemaOrBool::Schema(y)) => node_exhaustive(*x, *y),
        (SchemaOrBool::Bool(x), SchemaOrBool::Bool(y)) => x == y,
        _ => false,
    }
}

/// The two schemas are equal in every field, at every depth.
pub open spec fn node_equal(a: SchemaNode, b: SchemaNode) -> bool
    decreases a, 1nat,
{
    &&& opt_text(a.type_) == opt_text(b.type_)
    &&& opt_text(a.format) == opt_text(b.format)
    &&& opt_text(a.description) == opt_text(b.description)
    &&& match (a.enum_, b.enum_) {
        (Some(x), Some(y)) => jsons_equal(x@, y@),
        (None, None) => true,
        _ => false,
    }
    &&& match (a.items, b.items) {
        (Some(x), Some(y)) => items_equal(x, y),
        (None, None) => true,
        _ => false,
    }
    &&& match (a.additional_items, b.additional_items) {
        (Some(x), Some(y)) => either_equal(x, y),
        (None, None) => true,
        _ => false,
    }
    &&& match (a.properties, b.properties) {
        (Some(x), Some(y)) => props_equal(x@, y@),
        (None, None) => true,
        _ => false,
    }
    &&& match (a.additional_properties, b.additional_properties) {
        (Some(x), Some(y)) => either_equal(x, y),
        (None, None) => true,
        _ => false,
    }
    &&& match (a.required, b.required) {
        (Some(x), Some(y)) => texts(x@) == texts(y@),
        (None, None) => true,
        _ => false,
    }
    &&& match (a.one_of, b.one_of) {
        (Some(x), Some(y)) => nodes_equal(x@, y@),
        (None, None) => true,
        _ => false,
    }
    &&& match (a.all_of, b.all_of) {
        (Some(x), Some(y)) => nodes_equal(x@, y@),
        (None, None) => true,
        _ => false,
    }
    &&& match (a.any_of, b.any_of) {
        (Some(x), Some(y)) => nodes_equal(x@, y@),
        (None, None) => true,
        _ => false,
    }
    &&& match (a.not, b.not) {
        (Some(x), Some(y)) => node_equal(*x, *y),
        (None, None) => true,
        _ => false,
    }
    &&& a.x_kubernetes_int_or_string == b.x_kubernetes_int_or_string
    &&& a.x_kubernetes_preserve_unknown_fields == b.x_kubernetes_preserve_unknown_fields
    &&& opt_text(a.x_kubernetes_map_type) == opt_text(b.x_kubernetes_map_type)
}

/// Two lists of schemas are equal in every field, position by position.
pub open spec fn nodes_equal(xs: Seq<SchemaNode>, ys: Seq<SchemaNode>) -> bool
    decreases xs, 0nat,
{
    &&& xs.len() == ys.len()
    &&& forall|i: int| 0 <= i < xs.len() ==> node_equal(#[trigger] xs[i], ys[i])
}

/// Two property maps hold the same keys with schemas equal in every field.
pub open spec fn props_equal(xs: Seq<Property>, ys: Seq<Property>) -> bool
    decreases xs, 0nat,
{
    &&& xs.len() == ys.len()
    &&& forall|i: int|
        0 <= i < xs.len() ==> (#[trigger] xs[i]).name@ == ys[i].name@ && node_equal(
            xs[i].schema,
            ys[i].schema,
        )
}

/// Both are schemas, equal in every field, or both are lists of schemas,
/// equal in every field position by position.
pub open spec fn items_equal(a: SchemaOrArray, b: SchemaOrArray) -> bool
    decreases a, 0nat,
{
    match (a, b) {
        (SchemaOrArray::Schema(x), SchemaOrArray::Schema(y)) => node_equal(*x, *y),
        (SchemaOrArray::Schemas(xs), SchemaOrArray::Schemas(ys)) => nodes_equal(xs@, ys@),
        _ => false,
    }
}

/// Both are schemas, equal in every field, or both are the same switch.
pub open spec fn either_equal(a: SchemaOrBool, b: SchemaOrBool) -> bool
    decreases a, 0nat,
{
    match (a, b) {
        (SchemaOrBool::Schema(x), SchemaOrBool::Schema(y)) => node_equal(*x, *y),
        (SchemaOrBool::Bool(x), SchemaOrBool::Bool(y)) => x == y,
        _ => false,
    }
}

/// Every compared field that the schema `a` holds is found in `b`.
pub open spec fn node_subset(a: SchemaNode, b: SchemaNode) -> bool
    decreases a, 1nat,
{
    &&& opt_text_subset(a.type_, b.type_)
    &&& match (a.enum_, b.enum_) {
        (Some(x), Some(y)) => jsons_subset(x@, y@),
        (Some(_), None) => false,
        (None, _) => true,
    }
    &&& match (a.items, b.items) {
        (Some(x), Some(y)) => items_subset(x, y),
        (Some(_), None) => false,
        (None, _) => true,
    }
    &&& match (a.additional_items, b.additional_items) {
        (Some(x), Some(y)) => either_subset(x, y),
        (Some(_), None) => false,
        (None, _) => true,
    }
    &&& match (a.properties, b.properties) {
        (Some(x), Some(y)) => props_subset(x@, y@),
        (Some(_), None) => false,
        (None, _) => true,
    }
    &&& match (a.additional_properties, b.additional_properties) {
        (Some(x), Some(y)) => either_subset(x, y),
        (Some(_), None) => false,
        (None, _) => true,
    }
    &&& match (a.required, b.required) {
        (Some(x), Some(y)) => texts_subset(x@, y@),
        (Some(_), None) => false,
        (None, _) => true,
    }
    &&& match (a.one_of, b.one_of) {
        (Some(x), Some(y)) => nodes_subset(x@, y@),
        (Some(_), None) => false,
        (None, _) => true,
    }
    &&& match (a.all_of, b.all_of) {
        (Some(x), Some(y)) => nodes_subset(x@, y@),
        (Some(_), None) => false,
        (None, _) => true,
    }
    &&& match (a.any_of, b.any_of) {
        (Some(x), Some(y)) => nodes_subset(x@, y@),
        (Some(_), None) => false,
        (None, _) => true,
    }
    &&& match (a.not, b.not) {
        (Some(x), Some(y)) => node_subset(*x, *y),
        (Some(_), None) => false,
        (None, _) => true,
    }
    &&& opt_flag_subset(a.x_kubernetes_int_or_string, b.x_kubernetes_int_or_string)
    &&& opt_flag_subset(
        a.x_kubernetes_preserve_unknown_fields,
        b.x_kubernetes_preserve_unknown_fields,
    )
    &&& opt_text_subset(a.x_kubernetes_map_type, b.x_kubernetes_map_type)
}

/// The schema `x` fits some element of `ys`.
pub open spec fn node_fits_some(x: SchemaNode, ys: Seq<SchemaNode>) -> bool
    decreases x, 2nat,
{
    exists|j: int| 0 <= j < ys.len() && node_subset(x, #[trigger] ys[j])
}

/// Every element of `xs` fits some element of `ys`, wherever it stands
/// there and however long either list is.
pub open spec fn nodes_subset(xs: Seq<SchemaNode>, ys: Seq<SchemaNode>) -> bool
    decreases xs, 1nat,
{
    forall|i: int| 0 <= i < xs.len() ==> node_fits_some(#[trigger] xs[i], ys)
}

/// Every element of `xs` fits the schema `y`.
pub open spec fn nodes_all_fit(xs: Seq<SchemaNode>, y: SchemaNode) -> bool
    decreases xs, 1nat,
{
    forall|i: int| 0 <= i < xs.len() ==> node_subset(#[trigger] xs[i], y)
}

/// The property `x` has its key in `ys`, with a schema that it fits.
pub open spec fn prop_fits_some(x: Property, ys: Seq<Property>) -> bool
    decreases x, 2nat,
{
    exists|j: int|
        0 <= j < ys.len() && (#[trigger] ys[j]).name@ == x.name@ && node_subset(
            x.schema,
            ys[j].schema,
        )
}

/// Every property of `xs` has its key in `ys`, which is no shorter, with a
/// schema that it fits.
pub open spec fn props_subset(xs: Seq<Property>, ys: Seq<Property>) -> bool
    decreases xs, 0nat,
{
    &&& xs.len() <= ys.len()
    &&& forall|i: int| 0 <= i < xs.len() ==> prop_fits_some(#[trigger] xs[i], ys)
}

/// A schema fits a schema; a list fits a list element by element; a list
/// fits a schema when each of its elements does; a schema fits a list when
/// it fits one of the elements.
pub open spec fn items_subset(a: SchemaOrArray, b: SchemaOrArray) -> bool
    decreases a, 0nat,
{
    match (a, b) {
        (SchemaOrArray::Schemas(xs), SchemaOrArray::Schemas(ys)) => nodes_subset(xs@, ys@),
        (SchemaOrArray::Schemas(xs), SchemaOrArray::Schema(y)) => nodes_all_fit(xs@, *y),
        (SchemaOrArray::Schema(x), SchemaOrArray::Schemas(ys)) => node_fits_some(*x, ys@),
        (SchemaOrArray::Schema(x), SchemaOrArray::Schema(y)) => node_subset(*x, *y),
    }
}

/// Both are schemas and the first fits the second, or both are the same
/// switch.
pub open spec fn either_subset(a: SchemaOrBool, b: SchemaOrBool) -> bool
    decreases a, 0nat,
{
    match (a, b) {
        (SchemaOrBool::Schema(x), SchemaOrBool::Schema(y)) => node_subset(*x, *y),
        (SchemaOrBool::Bool(x), SchemaOrBool::Bool(y)) => x == y,
        _ => false,
    }
}


/// Whether two optional texts are equal.
fn opt_str_eq(a: &Option<String>, b: &Option<String>) -> (r: bool)
    ensures
        r == (opt_text(*a) == opt_text(*b)),
{
    match (a, b) {
        (Some(x), Some(y)) => str_eq(x.as_str(), y.as_str()),
        (None, None) => true,
        _ => false,
    }
}

/// Whether the rule's optional text fits the property's.
fn opt_str_fits(a: &Option<String>, b: &Option<String>) -> (r: bool)
    ensures
        r == opt_text_subset(*a, *b),
{
    match (a, b) {
        (Some(x), Some(y)) => str_eq(x.as_str(), y.as_str()),
        (Some(_), None) => false,
        (None, _) => true,
    }
}

/// Whether two optional flags are equal.
fn opt_flag_eq(a: &Option<bool>, b: &Option<bool>) -> (r: bool)
    ensures
        r == (*a == *b),
{
    match (a, b) {
        (Some(x), Some(y)) => *x == *y,
        (None, None) => true,
        _ => false,
    }
}

/// Whether the rule's optional flag fits the property's.
fn opt_flag_fits(a: &Option<bool>, b: &Option<bool>) -> (r: bool)
    ensures
        r == opt_flag_subset(*a, *b),
{
    match (a, b) {
        (Some(x), Some(y)) => *x == *y,
        (Some(_), None) => false,
        (None, _) => true,
    }
}

/// Whether two lists of strings hold the same texts in the same order.
pub fn strs_eq(xs: &Vec<String>, ys: &Vec<String>) -> (r: bool)
    ensures
        r == (texts(xs@) == texts(ys@)),
{
    if xs.len() != ys.len() {
        assert(texts(xs@).len() != texts(ys@).len());
        return false;
    }
    let mut i: usize = 0;
    while i < xs.len()
        invariant
            i <= xs.len(),
            xs.len() == ys.len(),
            forall|k: int| 0 <= k < i ==> (#[trigger] xs@[k])@ == ys@[k]@,
        decreases xs.len() - i,
    {
        if !str_eq(xs[i].as_str(), ys[i].as_str()) {
            assert(texts(xs@)[i as int] != texts(ys@)[i as int]);
            return false;
        }
        i += 1;
    }
    assert(texts(xs@) =~= texts(ys@));
    true
}

/// Whether the text `x` is an element of `ys`.
pub fn str_is_in(x: &str, ys: &Vec<String>) -> (r: bool)
    ensures
        r == text_in(x@, ys@),
{
    let mut j: usize = 0;
    while j < ys.len()
        invariant
            j <= ys.len(),
            forall|k: int| 0 <= k < j ==> (#[trigger] ys@[k])@ != x@,
        decreases ys.len() - j,
    {
        if str_eq(ys[j].as_str(), x) {
            return true;
        }
        j += 1;
    }
    false
}

/// Whether every text of `xs` is an element of `ys`.
pub fn strs_fit(xs: &Vec<String>, ys: &Vec<String>) -> (r: bool)
    ensures
        r == texts_subset(xs@, ys@),
{
    let mut i: usize = 0;
    while i < xs.len()
        invariant
            i <= xs.len(),
            forall|k: int| 0 <= k < i ==> text_in((#[trigger] xs@[k])@, ys@),
        decreases xs.len() - i,
    {
        if !str_is_in(xs[i].as_str(), ys) {
            return false;
        }
        i += 1;
    }
    true
}

/// Whether two JSON literals are equal.
pub fn json_is_equal(a: &JsonValue, b: &JsonValue) -> (r: bool)
    ensures
        r == json_equal(*a, *b),
    decreases a, 1nat,
{
    match (a, b) {
        (JsonValue::Null, JsonValue::Null) => true,
        (JsonValue::Bool(x), JsonValue::Bool(y)) => *x == *y,
        (JsonValue::Number(x), JsonValue::Number(y)) => *x == *y,
        (JsonValue::String(x), JsonValue::String(y)) => str_eq(x.as_str(), y.as_str()),
        (JsonValue::Array(xs), JsonValue::Array(ys)) => jsons_are_equal(xs, ys),
        (JsonValue::Object(xs), JsonValue::Object(ys)) => entries_are_equal(xs, ys),
        _ => false,
    }
}

/// Whether two lists of JSON literals are equal position by position.
pub fn jsons_are_equal(xs: &Vec<JsonValue>, ys: &Vec<JsonValue>) -> (r: bool)
    ensures
        r == jsons_equal(xs@, ys@),
    decreases xs, 0nat,
{
    if xs.len() != ys.len() {
        return false;
    }
    let mut i: usize = 0;
    while i < xs.len()
        invariant
            i <= xs.len(),
            xs.len() == ys.len(),
            forall|k: int| 0 <= k < i ==> json_equal(#[trigger] xs@[k], ys@[k]),
        decreases xs.len() - i,
    {
        if !json_is_equal(&xs[i], &ys[i]) {
            return false;
        }
        i += 1;
    }
    true
}

/// Whether two JSON objects hold the same keys with equal values.
pub fn entries_are_equal(xs: &Vec<JsonMember>, ys: &Vec<JsonMember>) -> (r: bool)
    ensures
        r == entries_equal(xs@, ys@),
    decreases xs, 0nat,
{
    if xs.len() != ys.len() {
        return false;
    }
    let mut i: usize = 0;
    while i < xs.len()
        invariant
            i <= xs.len(),
            xs.len() == ys.len(),
            forall|k: int|
                0 <= k < i ==> (#[trigger] xs@[k]).key@ == ys@[k].key@ && json_equal(
                    xs@[k].value,
                    ys@[k].value,
                ),
        decreases xs.len() - i,
    {
        if !str_eq(xs[i].key.as_str(), ys[i].key.as_str()) {
            return false;
        }
        if !json_is_equal(&xs[i].value, &ys[i].value) {
            return false;
        }
        i += 1;
    }
    true
}

/// Whether what the JSON literal `a` holds is found in `b`.
pub fn json_is_subset(a: &JsonValue, b: &JsonValue) -> (r: bool)
    ensures
        r == json_subset(*a, *b),
    decreases a, 1nat,
{
    match (a, b) {
        (JsonValue::Null, _) => true,
        (JsonValue::Bool(x), JsonValue::Bool(y)) => *x == *y,
        (JsonValue::Number(x), JsonValue::Number(y)) => *x == *y,
        (JsonValue::String(x), JsonValue::String(y)) => str_eq(x.as_str(), y.as_str()),
        (JsonValue::Array(xs), JsonValue::Array(ys)) => jsons_are_subset(xs, ys),
        (JsonValue::Object(xs), JsonValue::Object(ys)) => entries_are_subset(xs, ys),
        _ => false,
    }
}

/// Whether the JSON literal fits some element of the list.
fn json_does_fit_some(x: &JsonValue, ys: &Vec<JsonValue>) -> (r: bool)
    ensures
        r == json_fits_some(*x, ys@),
    decreases x, 2nat,
{
    let mut j: usize = 0;
    while j < ys.len()
        invariant
            j <= ys.len(),
            forall|k: int| 0 <= k < j ==> !json_subset(*x, #[trigger] ys@[k]),
        decreases ys.len() - j,
    {
        if json_is_subset(x, &ys[j]) {
            return true;
        }
        j += 1;
    }
    false
}

/// Whether every element of `xs` fits some element of `ys`.
pub fn jsons_are_subset(xs: &Vec<JsonValue>, ys: &Vec<JsonValue>) -> (r: bool)
    ensures
        r == jsons_subset(xs@, ys@),
    decreases xs, 0nat,
{
    let mut i: usize = 0;
    while i < xs.len()
        invariant
            i <= xs.len(),
            forall|k: int| 0 <= k < i ==> json_fits_some(#[trigger] xs@[k], ys@),
        decreases xs.len() - i,
    {
        if !json_does_fit_some(&xs[i], ys) {
            return false;
        }
        i += 1;
    }
    true
}

/// Whether the entry has its key in the object, with a value that it fits.
fn entry_does_fit_some(x: &JsonMember, ys: &Vec<JsonMember>) -> (r: bool)
    ensures
        r == entry_fits_some(*x, ys@),
    decreases x, 2nat,
{
    let mut j: usize = 0;
    while j < ys.len()
        invariant
            j <= ys.len(),
            forall|k: int|
                0 <= k < j ==> !((#[trigger] ys@[k]).key@ == x.key@ && json_subset(
                    x.value,
                    ys@[k].value,
                )),
        decreases ys.len() - j,
    {
        if str_eq(ys[j].key.as_str(), x.key.as_str()) && json_is_subset(&x.value, &ys[j].value) {
            return true;
        }
        j += 1;
    }
    false
}

/// Whether every entry of `xs` has its key in `ys`, which is no shorter, with
/// a value that it fits.
pub fn entries_are_subset(xs: &Vec<JsonMember>, ys: &Vec<JsonMember>) -> (r: bool)
    ensures
        r == entries_subset(xs@, ys@),
    decreases xs, 0nat,
{
    if xs.len() > ys.len() {
        return false;
    }
    let mut i: usize = 0;
    while i < xs.len()
        invariant
            i <= xs.len(),
            forall|k: int| 0 <= k < i ==> entry_fits_some(#[trigger] xs@[k], ys@),
        decreases xs.len() - i,
    {
        if !entry_does_fit_some(&xs[i], ys) {
            return false;
        }
        i += 1;
    }
    true
}

/// Whether two lists of schemas are equal position by position in every
/// compared field.
fn nodes_are_exhaustive(xs: &Vec<SchemaNode>, ys: &Vec<SchemaNode>) -> (r: bool)
    ensures
        r == nodes_exhaustive(xs@, ys@),
    decreases xs, 0nat,
{
    if xs.len() != ys.len() {
        return false;
    }
    let mut i: usize = 0;
    while i < xs.len()
        invariant
            i <= xs.len(),
            xs.len() == ys.len(),
            forall|k: int| 0 <= k < i ==> node_exhaustive(#[trigger] xs@[k], ys@[k]),
        decreases xs.len() - i,
    {
        if !is_exhaustive(&xs[i], &ys[i]) {
            return false;
        }
        i += 1;
    }
    true
}

/// Whether two property maps hold the same keys with schemas that are equal
/// in every compared field.
pub fn props_are_exhaustive(xs: &Vec<Property>, ys: &Vec<Property>) -> (r: bool)
    ensures
        r == props_exhaustive(xs@, ys@),
    decreases xs, 0nat,
{
    if xs.len() != ys.len() {
        return false;
    }
    let mut i: usize = 0;
    while i < xs.len()
        invariant
            i <= xs.len(),
            xs.len() == ys.len(),
            forall|k: int|
                0 <= k < i ==> (#[trigger] xs@[k]).name@ == ys@[k].name@ && node_exhaustive(
                    xs@[k].schema,
                    ys@[k].schema,
                ),
        decreases xs.len() - i,
    {
        if !str_eq(xs[i].name.as_str(), ys[i].name.as_str()) {
            return false;
        }
        if !is_exhaustive(&xs[i].schema, &ys[i].schema) {
            return false;
        }
        i += 1;
    }
    true
}

/// Whether two items are equal in every compared field.
fn items_are_exhaustive(a: &SchemaOrArray, b: &SchemaOrArray) -> (r: bool)
    ensures
        r == items_exhaustive(*a, *b),
    decreases a, 0nat,
{
    match (a, b) {
        (SchemaOrArray::Schema(x), SchemaOrArray::Schema(y)) => is_exhaustive(x, y),
        (SchemaOrArray::Schemas(xs), SchemaOrArray::Schemas(ys)) => nodes_are_exhaustive(xs, ys),
        _ => false,
    }
}

/// Whether both are schemas, equal in every compared field, or the same
/// switch.
fn either_is_exhaustive(a: &SchemaOrBool, b: &SchemaOrBool) -> (r: bool)
    ensures
        r == either_exhaustive(*a, *b),
    decreases a, 0nat,
{
    match (a, b) {
        (SchemaOrBool::Schema(x), SchemaOrBool::Schema(y)) => is_exhaustive(x, y),
        (SchemaOrBool::Bool(x), SchemaOrBool::Bool(y)) => *x == *y,
        _ => false,
    }
}

/// Whether every compared field of the two schemas is equal.
pub fn is_exhaustive(a: &SchemaNode, b: &SchemaNode) -> (r: bool)
    ensures
        r == node_exhaustive(*a, *b),
    decreases a, 1nat,
{
    if !opt_str_eq(&a.type_, &b.type_) {
        return false;
    }
    let enums = match (&a.enum_, &b.enum_) {
        (Some(x), Some(y)) => jsons_are_equal(x, y),
        (None, None) => true,
        _ => false,
    };
    if !enums {
        return false;
    }
    let items = match (&a.items, &b.items) {
        (Some(x), Some(y)) => items_are_exhaustive(x, y),
        (None, None) => true,
        _ => false,
    };
    if !items {
        return false;
    }
    let additional_items = match (&a.additional_items, &b.additional_items) {
        (Some(x), Some(y)) => either_is_exhaustive(x, y),
        (None, None) => true,
        _ => false,
    };
    if !additional_items {
        return false;
    }
    let properties = match (&a.properties, &b.properties) {
        (Some(x), Some(y)) => props_are_exhaustive(x, y),
        (None, None) => true,
        _ => false,
    };
    if !properties {
        return false;
    }
    let additional_properties = match (&a.additional_properties, &b.additional_properties) {
        (Some(x), Some(y)) => either_is_exhaustive(x, y),
        (None, None) => true,
        _ => false,
    };
    if !additional_properties {
        return false;
    }
    let required = match (&a.required, &b.required) {
        (Some(x), Some(y)) => strs_eq(x, y),
        (None, None) => true,
        _ => false,
    };
    if !required {
        return false;
    }
    let one_of = match (&a.one_of, &b.one_of) {
        (Some(x), Some(y)) => nodes_are_exhaustive(x, y),
        (None, None) => true,
        _ => false,
    };
    if !one_of {
        return false;
    }
    let all_of = match (&a.all_of, &b.all_of) {
        (Some(x), Some(y)) => nodes_are_exhaustive(x, y),
        (None, None) => true,
        _ => false,
    };
    if !all_of {
        return false;
    }
    let any_of = match (&a.any_of, &b.any_of) {
        (Some(x), Some(y)) => nodes_are_exhaustive(x, y),
        (None, None) => true,
        _ => false,
    };
    if !any_of {
        return false;
    }
    let not = match (&a.not, &b.not) {
        (Some(x), Some(y)) => is_exhaustive(x, y),
        (None, None) => true,
        _ => false,
    };
    if !not {
        return false;
    }
    opt_flag_eq(&a.x_kubernetes_int_or_string, &b.x_kubernetes_int_or_string) && opt_flag_eq(
        &a.x_kubernetes_preserve_unknown_fields,
        &b.x_kubernetes_preserve_unknown_fields,
    ) && opt_str_eq(&a.x_kubernetes_map_type, &b.x_kubernetes_map_type)
}

/// Whether the schema fits some element of the list.
fn node_does_fit_some(x: &SchemaNode, ys: &Vec<SchemaNode>) -> (r: bool)
    ensures
        r == node_fits_some(*x, ys@),
    decreases x, 2nat,
{
    let mut j: usize = 0;
    while j < ys.len()
        invariant
            j <= ys.len(),
            forall|k: int| 0 <= k < j ==> !node_subset(*x, #[trigger] ys@[k]),
        decreases ys.len() - j,
    {
        if is_subset(x, &ys[j]) {
            return true;
        }
        j += 1;
    }
    false
}

/// Whether every element of `xs` fits some element of `ys`.
fn nodes_are_subset(xs: &Vec<SchemaNode>, ys: &Vec<SchemaNode>) -> (r: bool)
    ensures
        r == nodes_subset(xs@, ys@),
    decreases xs, 1nat,
{
    let mut i: usize = 0;
    while i < xs.len()
        invariant
            i <= xs.len(),
            forall|k: int| 0 <= k < i ==> node_fits_some(#[trigger] xs@[k], ys@),
        decreases xs.len() - i,
    {
        if !node_does_fit_some(&xs[i], ys) {
            return false;
        }
        i += 1;
    }
    true
}

/// Whether every element of the list fits the schema.
fn nodes_do_all_fit(xs: &Vec<SchemaNode>, y: &SchemaNode) -> (r: bool)
    ensures
        r == nodes_all_fit(xs@, *y),
    decreases xs, 1nat,
{
    let mut i: usize = 0;
    while i < xs.len()
        invariant
            i <= xs.len(),
            forall|k: int| 0 <= k < i ==> node_subset(#[trigger] xs@[k], *y),
        decreases xs.len() - i,
    {
        if !is_subset(&xs[i], y) {
            return false;
        }
        i += 1;
    }
    true
}

/// Whether the property has its key in the map, with a schema that it fits.
fn prop_does_fit_some(x: &Property, ys: &Vec<Property>) -> (r: bool)
    ensures
        r == prop_fits_some(*x, ys@),
    decreases x, 2nat,
{
    let mut j: usize = 0;
    while j < ys.len()
        invariant
            j <= ys.len(),
            forall|k: int|
                0 <= k < j ==> !((#[trigger] ys@[k]).name@ == x.name@ && node_subset(
                    x.schema,
                    ys@[k].schema,
                )),
        decreases ys.len() - j,
    {
        if str_eq(ys[j].name.as_str(), x.name.as_str()) && is_subset(&x.schema, &ys[j].schema) {
            return true;
        }
        j += 1;
    }
    false
}

/// Whether every property of `xs` has its key in `ys`, which is no shorter,
/// with a schema that it fits.
pub fn props_are_subset(xs: &Vec<Property>, ys: &Vec<Property>) -> (r: bool)
    ensures
        r == props_subset(xs@, ys@),
    decreases xs, 0nat,
{
    if xs.len() > ys.len() {
        return false;
    }
    let mut i: usize = 0;
    while i < xs.len()
        invariant
            i <= xs.len(),
            forall|k: int| 0 <= k < i ==> prop_fits_some(#[trigger] xs@[k], ys@),
        decreases xs.len() - i,
    {
        if !prop_does_fit_some(&xs[i], ys) {
            return false;
        }
        i += 1;
    }
    true
}

/// Whether the rule's items fit the property's.
fn items_are_subset(a: &SchemaOrArray, b: &SchemaOrArray) -> (r: bool)
    ensures
        r == items_subset(*a, *b),
    decreases a, 0nat,
{
    match (a, b) {
        (SchemaOrArray::Schemas(xs), SchemaOrArray::Schemas(ys)) => nodes_are_subset(xs, ys),
        (SchemaOrArray::Schemas(xs), SchemaOrArray::Schema(y)) => nodes_do_all_fit(xs, y),
        (SchemaOrArray::Schema(x), SchemaOrArray::Schemas(ys)) => node_does_fit_some(x, ys),
        (SchemaOrArray::Schema(x), SchemaOrArray::Schema(y)) => is_subset(x, y),
    }
}

/// Whether both are schemas and the first fits the second, or both are the
/// same switch.
fn either_is_subset(a: &SchemaOrBool, b: &SchemaOrBool) -> (r: bool)
    ensures
        r == either_subset(*a, *b),
    decreases a, 0nat,
{
    match (a, b) {
        (SchemaOrBool::Schema(x), SchemaOrBool::Schema(y)) => is_subset(x, y),
        (SchemaOrBool::Bool(x), SchemaOrBool::Bool(y)) => *x == *y,
        _ => false,
    }
}

/// Whether every compared field that the schema `a` holds is found in `b`.
pub fn is_subset(a: &SchemaNode, b: &SchemaNode) -> (r: bool)
    ensures
        r == node_subset(*a, *b),
    decreases a, 1nat,
{
    if !opt_str_fits(&a.type_, &b.type_) {
        return false;
    }
    let enums = match (&a.enum_, &b.enum_) {
        (Some(x), Some(y)) => jsons_are_subset(x, y),
        (Some(_), None) => false,
        (None, _) => true,
    };
    if !enums {
        return false;
    }
    let items = match (&a.items, &b.items) {
        (Some(x), Some(y)) => items_are_subset(x, y),
        (Some(_), None) => false,
        (None, _) => true,
    };
    if !items {
        return false;
    }
    let additional_items = match (&a.additional_items, &b.additional_items) {
        (Some(x), Some(y)) => either_is_subset(x, y),
        (Some(_), None) => false,
        (None, _) => true,
    };
    if !additional_items {
        return false;
    }
    let properties = match (&a.properties, &b.properties) {
        (Some(x), Some(y)) => props_are_subset(x, y),
        (Some(_), None) => false,
        (None, _) => true,
    };
    if !properties {
        return false;
    }
    let additional_properties = match (&a.additional_properties, &b.additional_properties) {
        (Some(x), Some(y)) => either_is_subset(x, y),
        (Some(_), None) => false,
        (None, _) => true,
    };
    if !additional_properties {
        return false;
    }
    let required = match (&a.required, &b.required) {
        (Some(x), Some(y)) => strs_fit(x, y),
        (Some(_), None) => false,
        (None, _) => true,
    };
    if !required {
        return false;
    }
    let one_of = match (&a.one_of, &b.one_of) {
        (Some(x), Some(y)) => nodes_are_subset(x, y),
        (Some(_), None) => false,
        (None, _) => true,
    };
    if !one_of {
        return false;
    }
    let all_of = match (&a.all_of, &b.all_of) {
        (Some(x), Some(y)) => nodes_are_subset(x, y),
        (Some(_), None) => false,
        (None, _) => true,
    };
    if !all_of {
        return false;
    }
    let any_of = match (&a.any_of, &b.any_of) {
        (Some(x), Some(y)) => nodes_are_subset(x, y),
        (Some(_), None) => false,
        (None, _) => true,
    };
    if !any_of {
        return false;
    }
    let not = match (&a.not, &b.not) {
        (Some(x), Some(y)) => is_subset(x, y),
        (Some(_), None) => false,
        (None, _) => true,
    };
    if !not {
        return false;
    }
    opt_flag_fits(&a.x_kubernetes_int_or_string, &b.x_kubernetes_int_or_string) && opt_flag_fits(
        &a.x_kubernetes_preserve_unknown_fields,
        &b.x_kubernetes_preserve_unknown_fields,
    ) && opt_str_fits(&a.x_kubernetes_map_type, &b.x_kubernetes_map_type)
}


/// Whether two lists of schemas are equal in every field, position by
/// position.
fn nodes_are_equal(xs: &Vec<SchemaNode>, ys: &Vec<SchemaNode>) -> (r: bool)
    ensures
        r == nodes_equal(xs@, ys@),
    decreases xs, 0nat,
{
    if xs.len() != ys.len() {
        return false;
    }
    let mut i: usize = 0;
    while i < xs.len()
        invariant
            i <= xs.len(),
            xs.len() == ys.len(),
            forall|k: int| 0 <= k < i ==> node_equal(#[trigger] xs@[k], ys@[k]),
        decreases xs.len() - i,
    {
        if !is_equal(&xs[i], &ys[i]) {
            return false;
        }
        i += 1;
    }
    true
}

/// Whether two property maps hold the same keys with schemas that are equal
/// in every field.
pub fn props_are_equal(xs: &Vec<Property>, ys: &Vec<Property>) -> (r: bool)
    ensures
        r == props_equal(xs@, ys@),
    decreases xs, 0nat,
{
    if xs.len() != ys.len() {
        return false;
    }
    let mut i: usize = 0;
    while i < xs.len()
        invariant
            i <= xs.len(),
            xs.len() == ys.len(),
            forall|k: int|
                0 <= k < i ==> (#[trigger] xs@[k]).name@ == ys@[k].name@ && node_equal(
                    xs@[k].schema,
                    ys@[k].schema,
                ),
        decreases xs.len() - i,
    {
        if !str_eq(xs[i].name.as_str(), ys[i].name.as_str()) {
            return false;
        }
        if !is_equal(&xs[i].schema, &ys[i].schema) {
            return false;
        }
        i += 1;
    }
    true
}

/// Whether two items are equal in every field.
fn items_are_equal(a: &SchemaOrArray, b: &SchemaOrArray) -> (r: bool)
    ensures
        r == items_equal(*a, *b),
    decreases a, 0nat,
{
    match (a, b) {
        (SchemaOrArray::Schema(x), SchemaOrArray::Schema(y)) => is_equal(x, y),
        (SchemaOrArray::Schemas(xs), SchemaOrArray::Schemas(ys)) => nodes_are_equal(xs, ys),
        _ => false,
    }
}

/// Whether both are schemas, equal in every field, or the same switch.
fn either_is_equal(a: &SchemaOrBool, b: &SchemaOrBool) -> (r: bool)
    ensures
        r == either_equal(*a, *b),
    decreases a, 0nat,
{
    match (a, b) {
        (SchemaOrBool::Schema(x), SchemaOrBool::Schema(y)) => is_equal(x, y),
        (SchemaOrBool::Bool(x), SchemaOrBool::Bool(y)) => *x == *y,
        _ => false,
    }
}

/// Whether the two schemas are equal in every field, at every depth.
pub fn is_equal(a: &SchemaNode, b: &SchemaNode) -> (r: bool)
    ensures
        r == node_equal(*a, *b),
    decreases a, 1nat,
{
    if !opt_str_eq(&a.type_, &b.type_) {
        return false;
    }
    if !opt_str_eq(&a.format, &b.format) {
        return false;
    }
    if !opt_str_eq(&a.description, &b.description) {
        return false;
    }
    let enums = match (&a.enum_, &b.enum_) {
        (Some(x), Some(y)) => jsons_are_equal(x, y),
        (None, None) => true,
        _ => false,
    };
    if !enums {
        return false;
    }
    let items = match (&a.items, &b.items) {
        (Some(x), Some(y)) => items_are_equal(x, y),
        (None, None) => true,
        _ => false,
    };
    if !items {
        return false;
    }
    let additional_items = match (&a.additional_items, &b.additional_items) {
        (Some(x), Some(y)) => either_is_equal(x, y),
        (None, None) => true,
        _ => false,
    };
    if !additional_items {
        return false;
    }
    let properties = match (&a.properties, &b.properties) {
        (Some(x), Some(y)) => props_are_equal(x, y),
        (None, None) => true,
        _ => false,
    };
    if !properties {
        return false;
    }
    let additional_properties = match (&a.additional_properties, &b.additional_properties) {
        (Some(x), Some(y)) => either_is_equal(x, y),
        (None, None) => true,
        _ => false,
    };
    if !additional_properties {
        return false;
    }
    let required = match (&a.required, &b.required) {
        (Some(x), Some(y)) => strs_eq(x, y),
        (None, None) => true,
        _ => false,
    };
    if !required {
        return false;
    }
    let one_of = match (&a.one_of, &b.one_of) {
        (Some(x), Some(y)) => nodes_are_equal(x, y),
        (None, None) => true,
        _ => false,
    };
    if !one_of {
        return false;
    }
    let all_of = match (&a.all_of, &b.all_of) {
        (Some(x), Some(y)) => nodes_are_equal(x, y),
        (None, None) => true,
        _ => false,
    };
    if !all_of {
        return false;
    }
    let any_of = match (&a.any_of, &b.any_of) {
        (Some(x), Some(y)) => nodes_are_equal(x, y),
        (None, None) => true,
        _ => false,
    };
    if !any_of {
        return false;
    }
    let not = match (&a.not, &b.not) {
        (Some(x), Some(y)) => is_equal(x, y),
        (None, None) => true,
        _ => false,
    };
    if !not {
        return false;
    }
    opt_flag_eq(&a.x_kubernetes_int_or_string, &b.x_kubernetes_int_or_string) && opt_flag_eq(
        &a.x_kubernetes_preserve_unknown_fields,
        &b.x_kubernetes_preserve_unknown_fields,
    ) && opt_str_eq(&a.x_kubernetes_map_type, &b.x_kubernetes_map_type)
}


} // verus!
