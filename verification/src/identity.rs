//! How the two comparisons of schemas stand to each other: every schema is
//! exhaustive for itself, and a schema that is exhaustive for another fits
//! it. So the exhaustive comparison asks for no less than the subset one,
//! and every schema fits itself.

use vstd::prelude::*;
use crate::matching::{
    either_exhaustive, either_subset, entries_equal, entries_subset, entry_fits_some,
    items_exhaustive, items_subset, json_equal, json_fits_some, json_subset, jsons_equal,
    jsons_subset, node_exhaustive, node_fits_some, node_subset, nodes_exhaustive, nodes_subset,
    prop_fits_some, props_exhaustive, props_subset, text_in, texts_subset,
};
use crate::schema::{JsonMember, JsonValue, Property, SchemaNode, SchemaOrArray, SchemaOrBool};
use crate::text::texts;

verus! {

/// Every JSON literal is equal to itself.
pub proof fn json_equals_itself(a: JsonValue)
    ensures
        json_equal(a, a),
    decreases a, 1nat,
{
    match a {
        JsonValue::Array(xs) => {
            jsons_equal_themselves(xs@);
        },
        JsonValue::Object(xs) => {
            entries_equal_themselves(xs@);
        },
        _ => {},
    }
}

/// Every list of JSON literals is equal to itself.
pub proof fn jsons_equal_themselves(xs: Seq<JsonValue>)
    ensures
        jsons_equal(xs, xs),
    decreases xs, 0nat,
{
    assert forall|i: int| 0 <= i < xs.len() implies json_equal(#[trigger] xs[i], xs[i]) by {
        json_equals_itself(xs[i]);
    }
}

/// Every JSON object is equal to itself.
pub proof fn entries_equal_themselves(xs: Seq<JsonMember>)
    ensures
        entries_equal(xs, xs),
    decreases xs, 0nat,
{
    assert forall|i: int| 0 <= i < xs.len() implies json_equal((#[trigger] xs[i]).value, xs[i].value) by {
        json_equals_itself(xs[i].value);
    }
}

/// A JSON literal that is equal to another fits it.
pub proof fn equal_json_fits(a: JsonValue, b: JsonValue)
    requires
        json_equal(a, b),
    ensures
        json_subset(a, b),
    decreases a, 1nat,
{
    match (a, b) {
        (JsonValue::Array(xs), JsonValue::Array(ys)) => {
            equal_jsons_fit(xs@, ys@);
        },
        (JsonValue::Object(xs), JsonValue::Object(ys)) => {
            equal_entries_fit(xs@, ys@);
        },
        _ => {},
    }
}

/// A list of JSON literals that is equal to another fits it.
pub proof fn equal_jsons_fit(xs: Seq<JsonValue>, ys: Seq<JsonValue>)
    requires
        jsons_equal(xs, ys),
    ensures
        jsons_subset(xs, ys),
    decreases xs, 0nat,
{
    assert forall|i: int| 0 <= i < xs.len() implies json_fits_some(#[trigger] xs[i], ys) by {
        equal_json_fits(xs[i], ys[i]);
        assert(json_subset(xs[i], ys[i]));
    }
}

/// A JSON object that is equal to another fits it.
pub proof fn equal_entries_fit(xs: Seq<JsonMember>, ys: Seq<JsonMember>)
    requires
        entries_equal(xs, ys),
    ensures
        entries_subset(xs, ys),
    decreases xs, 0nat,
{
    assert forall|i: int| 0 <= i < xs.len() implies entry_fits_some(#[trigger] xs[i], ys) by {
        assert(xs[i].key@ == ys[i].key@);
        equal_json_fits(xs[i].value, ys[i].value);
        assert(ys[i].key@ == xs[i].key@ && json_subset(xs[i].value, ys[i].value));
    }
}

/// A list of the same texts as another fits it.
pub proof fn same_texts_fit(xs: Seq<String>, ys: Seq<String>)
    requires
        texts(xs) == texts(ys),
    ensures
        texts_subset(xs, ys),
{
    assert(texts(xs).len() == xs.len());
    assert(texts(ys).len() == ys.len());
    assert forall|i: int| 0 <= i < xs.len() implies text_in((#[trigger] xs[i])@, ys) by {
        assert(texts(xs)[i] == xs[i]@);
        assert(texts(ys)[i] == ys[i]@);
    }
}

/// Every schema is exhaustive for itself.
pub proof fn node_is_exhaustive_for_itself(a: SchemaNode)
    ensures
        node_exhaustive(a, a),
    decreases a, 1nat,
{
    match a.enum_ {
        Some(x) => {
            jsons_equal_themselves(x@);
        },
        None => {},
    }
    match a.items {
        Some(x) => {
            items_are_exhaustive_for_themselves(x);
        },
        None => {},
    }
    match a.additional_items {
        Some(x) => {
            either_is_exhaustive_for_itself(x);
        },
        None => {},
    }
    match a.properties {
        Some(x) => {
            props_are_exhaustive_for_themselves(x@);
        },
        None => {},
    }
    match a.additional_properties {
        Some(x) => {
            either_is_exhaustive_for_itself(x);
        },
        None => {},
    }
    match a.one_of {
        Some(x) => {
            nodes_are_exhaustive_for_themselves(x@);
        },
        None => {},
    }
    match a.all_of {
        Some(x) => {
            nodes_are_exhaustive_for_themselves(x@);
        },
        None => {},
    }
    match a.any_of {
        Some(x) => {
            nodes_are_exhaustive_for_themselves(x@);
        },
        None => {},
    }
    match a.not {
        Some(x) => {
            node_is_exhaustive_for_itself(*x);
        },
        None => {},
    }
}

/// Every list of schemas is exhaustive for itself.
pub proof fn nodes_are_exhaustive_for_themselves(xs: Seq<SchemaNode>)
    ensures
        nodes_exhaustive(xs, xs),
    decreases xs, 0nat,
{
    assert forall|i: int| 0 <= i < xs.len() implies node_exhaustive(#[trigger] xs[i], xs[i]) by {
        node_is_exhaustive_for_itself(xs[i]);
    }
}

/// Every property map is exhaustive for itself.
pub proof fn props_are_exhaustive_for_themselves(xs: Seq<Property>)
    ensures
        props_exhaustive(xs, xs),
    decreases xs, 0nat,
{
    assert forall|i: int| 0 <= i < xs.len() implies node_exhaustive(
        (#[trigger] xs[i]).schema,
        xs[i].schema,
    ) by {
        node_is_exhaustive_for_itself(xs[i].schema);
    }
}

/// Items are exhaustive for themselves.
pub proof fn items_are_exhaustive_for_themselves(a: SchemaOrArray)
    ensures
        items_exhaustive(a, a),
    decreases a, 0nat,
{
    match a {
        SchemaOrArray::Schema(x) => {
            node_is_exhaustive_for_itself(*x);
        },
        SchemaOrArray::Schemas(xs) => {
            nodes_are_exhaustive_for_themselves(xs@);
        },
    }
}

/// A schema or switch is exhaustive for itself.
pub proof fn either_is_exhaustive_for_itself(a: SchemaOrBool)
    ensures
        either_exhaustive(a, a),
    decreases a, 0nat,
{
    match a {
        SchemaOrBool::Schema(x) => {
            node_is_exhaustive_for_itself(*x);
        },
        SchemaOrBool::Bool(_) => {},
    }
}

/// A schema that is exhaustive for another fits it.
pub proof fn exhaustive_node_fits(a: SchemaNode, b: SchemaNode)
    requires
        node_exhaustive(a, b),
    ensures
        node_subset(a, b),
    decreases a, 1nat,
{
    match (a.enum_, b.enum_) {
        (Some(x), Some(y)) => {
            equal_jsons_fit(x@, y@);
        },
        _ => {},
    }
    match (a.items, b.items) {
        (Some(x), Some(y)) => {
            exhaustive_items_fit(x, y);
        },
        _ => {},
    }
    match (a.additional_items, b.additional_items) {
        (Some(x), Some(y)) => {
            exhaustive_either_fits(x, y);
        },
        _ => {},
    }
    match (a.properties, b.properties) {
        (Some(x), Some(y)) => {
            exhaustive_props_fit(x@, y@);
        },
        _ => {},
    }
    match (a.additional_properties, b.additional_properties) {
        (Some(x), Some(y)) => {
            exhaustive_either_fits(x, y);
        },
        _ => {},
    }
    match (a.required, b.required) {
        (Some(x), Some(y)) => {
            same_texts_fit(x@, y@);
        },
        _ => {},
    }
    match (a.one_of, b.one_of) {
        (Some(x), Some(y)) => {
            exhaustive_nodes_fit(x@, y@);
        },
        _ => {},
    }
    match (a.all_of, b.all_of) {
        (Some(x), Some(y)) => {
            exhaustive_nodes_fit(x@, y@);
        },
        _ => {},
    }
    match (a.any_of, b.any_of) {
        (Some(x), Some(y)) => {
            exhaustive_nodes_fit(x@, y@);
        },
        _ => {},
    }
    match (a.not, b.not) {
        (Some(x), Some(y)) => {
            exhaustive_node_fits(*x, *y);
        },
        _ => {},
    }
}

/// A list of schemas that is exhaustive for another fits it.
pub proof fn exhaustive_nodes_fit(xs: Seq<SchemaNode>, ys: Seq<SchemaNode>)
    requires
        nodes_exhaustive(xs, ys),
    ensures
        nodes_subset(xs, ys),
    decreases xs, 0nat,
{
    assert forall|i: int| 0 <= i < xs.len() implies node_fits_some(#[trigger] xs[i], ys) by {
        exhaustive_node_fits(xs[i], ys[i]);
        assert(node_subset(xs[i], ys[i]));
    }
}

/// A property map that is exhaustive for another fits it.
pub proof fn exhaustive_props_fit(xs: Seq<Property>, ys: Seq<Property>)
    requires
        props_exhaustive(xs, ys),
    ensures
        props_subset(xs, ys),
    decreases xs, 0nat,
{
    assert forall|i: int| 0 <= i < xs.len() implies prop_fits_some(#[trigger] xs[i], ys) by {
        assert(xs[i].name@ == ys[i].name@);
        exhaustive_node_fits(xs[i].schema, ys[i].schema);
        assert(ys[i].name@ == xs[i].name@ && node_subset(xs[i].schema, ys[i].schema));
    }
}

/// Items that are exhaustive for others fit them.
pub proof fn exhaustive_items_fit(a: SchemaOrArray, b: SchemaOrArray)
    requires
        items_exhaustive(a, b),
    ensures
        items_subset(a, b),
    decreases a, 0nat,
{
    match (a, b) {
        (SchemaOrArray::Schema(x), SchemaOrArray::Schema(y)) => {
            exhaustive_node_fits(*x, *y);
        },
        (SchemaOrArray::Schemas(xs), SchemaOrArray::Schemas(ys)) => {
            exhaustive_nodes_fit(xs@, ys@);
        },
        _ => {},
    }
}

/// A schema or switch that is exhaustive for another fits it.
pub proof fn exhaustive_either_fits(a: SchemaOrBool, b: SchemaOrBool)
    requires
        either_exhaustive(a, b),
    ensures
        either_subset(a, b),
    decreases a, 0nat,
{
    match (a, b) {
        (SchemaOrBool::Schema(x), SchemaOrBool::Schema(y)) => {
            exhaustive_node_fits(*x, *y);
        },
        _ => {},
    }
}

/// Every schema fits itself.
pub proof fn node_fits_itself(a: SchemaNode)
    ensures
        node_subset(a, a),
{
    node_is_exhaustive_for_itself(a);
    exhaustive_node_fits(a, a);
}

} // verus!
