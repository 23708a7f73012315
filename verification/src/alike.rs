//! Schemas that are equal in every field compare alike: whatever one of
//! them fits, the other fits too. This is what allows a set of rules to drop
//! a rule that repeats the rule before it.

use vstd::prelude::*;
use crate::matching::{
    either_equal, either_exhaustive, either_subset, entries_equal, entries_subset,
    entry_fits_some, items_equal, items_exhaustive, items_subset, json_equal, json_fits_some,
    json_subset, jsons_equal, jsons_subset, node_equal, node_exhaustive, node_fits_some,
    node_subset, nodes_all_fit, nodes_equal, nodes_exhaustive, nodes_subset, prop_fits_some,
    props_equal, props_exhaustive, props_subset, text_in, texts_subset,
};
use crate::schema::{JsonMember, JsonValue, Property, SchemaNode, SchemaOrArray, SchemaOrBool};
use crate::text::texts;

verus! {

/// Equal JSON literals are equal to the same literals and fit the same
/// literals.
pub proof fn json_alike(a: JsonValue, b: JsonValue, c: JsonValue)
    requires
        json_equal(a, b),
    ensures
        json_equal(a, c) == json_equal(b, c),
        json_subset(a, c) == json_subset(b, c),
    decreases a, 1nat,
{
    match (a, b, c) {
        (JsonValue::Array(xs), JsonValue::Array(ys), JsonValue::Array(zs)) => {
            jsons_alike(xs@, ys@, zs@);
        },
        (JsonValue::Object(xs), JsonValue::Object(ys), JsonValue::Object(zs)) => {
            entries_alike(xs@, ys@, zs@);
        },
        _ => {},
    }
}

/// Equal JSON literals fit some element of the same lists.
pub proof fn json_fits_alike(x: JsonValue, y: JsonValue, zs: Seq<JsonValue>)
    requires
        json_equal(x, y),
    ensures
        json_fits_some(x, zs) == json_fits_some(y, zs),
    decreases x, 2nat,
{
    assert forall|j: int| 0 <= j < zs.len() implies json_subset(x, #[trigger] zs[j]) == json_subset(
        y,
        zs[j],
    ) by {
        json_alike(x, y, zs[j]);
    }
}

/// Equal lists of JSON literals are equal to the same lists and fit the
/// same lists.
pub proof fn jsons_alike(xs: Seq<JsonValue>, ys: Seq<JsonValue>, zs: Seq<JsonValue>)
    requires
        jsons_equal(xs, ys),
    ensures
        jsons_equal(xs, zs) == jsons_equal(ys, zs),
        jsons_subset(xs, zs) == jsons_subset(ys, zs),
    decreases xs, 0nat,
{
    assert forall|i: int| 0 <= i < xs.len() implies json_fits_some(#[trigger] xs[i], zs)
        == json_fits_some(ys[i], zs) by {
        json_fits_alike(xs[i], ys[i], zs);
    }
    assert forall|i: int| 0 <= i < ys.len() implies json_fits_some(#[trigger] ys[i], zs)
        == json_fits_some(xs[i], zs) by {
        json_fits_alike(xs[i], ys[i], zs);
    }
    if xs.len() == zs.len() {
        assert forall|i: int| 0 <= i < xs.len() implies json_equal(#[trigger] xs[i], zs[i])
            == json_equal(ys[i], zs[i]) by {
            json_alike(xs[i], ys[i], zs[i]);
        }
        assert forall|i: int| 0 <= i < ys.len() implies json_equal(#[trigger] ys[i], zs[i])
            == json_equal(xs[i], zs[i]) by {
            json_alike(xs[i], ys[i], zs[i]);
        }
    }
}

/// Equal entries of a JSON object fit some entry of the same objects.
pub proof fn entry_fits_alike(x: JsonMember, y: JsonMember, zs: Seq<JsonMember>)
    requires
        x.key@ == y.key@,
        json_equal(x.value, y.value),
    ensures
        entry_fits_some(x, zs) == entry_fits_some(y, zs),
    decreases x, 2nat,
{
    assert forall|j: int| 0 <= j < zs.len() implies json_subset(x.value, (#[trigger] zs[j]).value)
        == json_subset(y.value, zs[j].value) by {
        json_alike(x.value, y.value, zs[j].value);
    }
}

/// Equal JSON objects are equal to the same objects and fit the same
/// objects.
pub proof fn entries_alike(xs: Seq<JsonMember>, ys: Seq<JsonMember>, zs: Seq<JsonMember>)
    requires
        entries_equal(xs, ys),
    ensures
        entries_equal(xs, zs) == entries_equal(ys, zs),
        entries_subset(xs, zs) == entries_subset(ys, zs),
    decreases xs, 0nat,
{
    assert forall|i: int| 0 <= i < xs.len() implies entry_fits_some(#[trigger] xs[i], zs)
        == entry_fits_some(ys[i], zs) by {
        entry_fits_alike(xs[i], ys[i], zs);
    }
    assert forall|i: int| 0 <= i < ys.len() implies entry_fits_some(#[trigger] ys[i], zs)
        == entry_fits_some(xs[i], zs) by {
        assert(xs[i].key@ == ys[i].key@);
        entry_fits_alike(xs[i], ys[i], zs);
    }
    if xs.len() == zs.len() {
        assert forall|i: int| 0 <= i < xs.len() implies ((#[trigger] xs[i]).key@ == zs[i].key@
            && json_equal(xs[i].value, zs[i].value)) == (ys[i].key@ == zs[i].key@ && json_equal(
            ys[i].value,
            zs[i].value,
        )) by {
            json_alike(xs[i].value, ys[i].value, zs[i].value);
        }
        assert forall|i: int| 0 <= i < ys.len() implies ((#[trigger] ys[i]).key@ == zs[i].key@
            && json_equal(ys[i].value, zs[i].value)) == (xs[i].key@ == zs[i].key@ && json_equal(
            xs[i].value,
            zs[i].value,
        )) by {
            assert(xs[i].key@ == ys[i].key@);
            json_alike(xs[i].value, ys[i].value, zs[i].value);
        }
    }
}

/// Lists of the same texts fit the same lists.
pub proof fn texts_alike(xs: Seq<String>, ys: Seq<String>, zs: Seq<String>)
    requires
        texts(xs) == texts(ys),
    ensures
        texts_subset(xs, zs) == texts_subset(ys, zs),
{
    assert(xs.len() == texts(xs).len());
    assert(ys.len() == texts(ys).len());
    assert forall|i: int| 0 <= i < xs.len() implies (#[trigger] xs[i])@ == ys[i]@ by {
        assert(texts(xs)[i] == xs[i]@);
        assert(texts(ys)[i] == ys[i]@);
    }
    assert forall|i: int| 0 <= i < ys.len() implies (#[trigger] ys[i])@ == xs[i]@ by {
        assert(texts(xs)[i] == xs[i]@);
        assert(texts(ys)[i] == ys[i]@);
    }
}

/// Schemas that are equal in every field are exhaustive for the same
/// schemas and fit the same schemas.
pub proof fn node_alike(a: SchemaNode, b: SchemaNode, c: SchemaNode)
    requires
        node_equal(a, b),
    ensures
        node_exhaustive(a, c) == node_exhaustive(b, c),
        node_subset(a, c) == node_subset(b, c),
    decreases a, 1nat,
{
    assert(node_exhaustive(a, c) == node_exhaustive(b, c)) by {
        parts_alike(a, b, c);
    }
    assert(node_subset(a, c) == node_subset(b, c)) by {
        parts_alike(a, b, c);
    }
}

/// The parts of schemas that are equal in every field compare alike.
pub proof fn parts_alike(a: SchemaNode, b: SchemaNode, c: SchemaNode)
    requires
        node_equal(a, b),
    ensures
        (a.enum_ is Some && c.enum_ is Some) ==> jsons_equal(a.enum_->0@, c.enum_->0@) == jsons_equal(
            b.enum_->0@,
            c.enum_->0@,
        ) && jsons_subset(a.enum_->0@, c.enum_->0@) == jsons_subset(b.enum_->0@, c.enum_->0@),
        (a.items is Some && c.items is Some) ==> items_exhaustive(a.items->0, c.items->0)
            == items_exhaustive(b.items->0, c.items->0) && items_subset(a.items->0, c.items->0)
            == items_subset(b.items->0, c.items->0),
        (a.additional_items is Some && c.additional_items is Some) ==> either_exhaustive(
            a.additional_items->0,
            c.additional_items->0,
        ) == either_exhaustive(b.additional_items->0, c.additional_items->0) && either_subset(
            a.additional_items->0,
            c.additional_items->0,
        ) == either_subset(b.additional_items->0, c.additional_items->0),
        (a.properties is Some && c.properties is Some) ==> props_exhaustive(
            a.properties->0@,
            c.properties->0@,
        ) == props_exhaustive(b.properties->0@, c.properties->0@) && props_subset(
            a.properties->0@,
            c.properties->0@,
        ) == props_subset(b.properties->0@, c.properties->0@),
        (a.additional_properties is Some && c.additional_properties is Some) ==> either_exhaustive(
            a.additional_properties->0,
            c.additional_properties->0,
        ) == either_exhaustive(b.additional_properties->0, c.additional_properties->0)
            && either_subset(a.additional_properties->0, c.additional_properties->0)
            == either_subset(b.additional_properties->0, c.additional_properties->0),
        (a.required is Some && c.required is Some) ==> texts_subset(a.required->0@, c.required->0@)
            == texts_subset(b.required->0@, c.required->0@),
        (a.one_of is Some && c.one_of is Some) ==> nodes_exhaustive(a.one_of->0@, c.one_of->0@)
            == nodes_exhaustive(b.one_of->0@, c.one_of->0@) && nodes_subset(
            a.one_of->0@,
            c.one_of->0@,
        ) == nodes_subset(b.one_of->0@, c.one_of->0@),
        (a.all_of is Some && c.all_of is Some) ==> nodes_exhaustive(a.all_of->0@, c.all_of->0@)
            == nodes_exhaustive(b.all_of->0@, c.all_of->0@) && nodes_subset(
            a.all_of->0@,
            c.all_of->0@,
        ) == nodes_subset(b.all_of->0@, c.all_of->0@),
        (a.any_of is Some && c.any_of is Some) ==> nodes_exhaustive(a.any_of->0@, c.any_of->0@)
            == nodes_exhaustive(b.any_of->0@, c.any_of->0@) && nodes_subset(
            a.any_of->0@,
            c.any_of->0@,
        ) == nodes_subset(b.any_of->0@, c.any_of->0@),
        (a.not is Some && c.not is Some) ==> node_exhaustive(*a.not->0, *c.not->0) == node_exhaustive(
            *b.not->0,
            *c.not->0,
        ) && node_subset(*a.not->0, *c.not->0) == node_subset(*b.not->0, *c.not->0),
    decreases a, 0nat,
{
    match (a.enum_, b.enum_, c.enum_) {
        (Some(x), Some(y), Some(z)) => {
            jsons_alike(x@, y@, z@);
        },
        _ => {},
    }
    match (a.items, b.items, c.items) {
        (Some(x), Some(y), Some(z)) => {
            items_alike(x, y, z);
        },
        _ => {},
    }
    match (a.additional_items, b.additional_items, c.additional_items) {
        (Some(x), Some(y), Some(z)) => {
            either_alike(x, y, z);
        },
        _ => {},
    }
    match (a.properties, b.properties, c.properties) {
        (Some(x), Some(y), Some(z)) => {
            props_alike(x@, y@, z@);
        },
        _ => {},
    }
    match (a.additional_properties, b.additional_properties, c.additional_properties) {
        (Some(x), Some(y), Some(z)) => {
            either_alike(x, y, z);
        },
        _ => {},
    }
    match (a.required, b.required, c.required) {
        (Some(x), Some(y), Some(z)) => {
            texts_alike(x@, y@, z@);
        },
        _ => {},
    }
    match (a.one_of, b.one_of, c.one_of) {
        (Some(x), Some(y), Some(z)) => {
            nodes_alike(x@, y@, z@);
        },
        _ => {},
    }
    match (a.all_of, b.all_of, c.all_of) {
        (Some(x), Some(y), Some(z)) => {
            nodes_alike(x@, y@, z@);
        },
        _ => {},
    }
    match (a.any_of, b.any_of, c.any_of) {
        (Some(x), Some(y), Some(z)) => {
            nodes_alike(x@, y@, z@);
        },
        _ => {},
    }
    match (a.not, b.not, c.not) {
        (Some(x), Some(y), Some(z)) => {
            node_alike(*x, *y, *z);
        },
        _ => {},
    }
}

/// Equal schemas fit some element of the same lists.
pub proof fn node_fits_alike(x: SchemaNode, y: SchemaNode, zs: Seq<SchemaNode>)
    requires
        node_equal(x, y),
    ensures
        node_fits_some(x, zs) == node_fits_some(y, zs),
    decreases x, 2nat,
{
    assert forall|j: int| 0 <= j < zs.len() implies node_subset(x, #[trigger] zs[j]) == node_subset(
        y,
        zs[j],
    ) by {
        node_alike(x, y, zs[j]);
    }
}

/// Equal lists of schemas are exhaustive for the same lists, fit the same
/// lists, and fit the same schemas element by element.
pub proof fn nodes_alike(xs: Seq<SchemaNode>, ys: Seq<SchemaNode>, zs: Seq<SchemaNode>)
    requires
        nodes_equal(xs, ys),
    ensures
        nodes_exhaustive(xs, zs) == nodes_exhaustive(ys, zs),
        nodes_subset(xs, zs) == nodes_subset(ys, zs),
    decreases xs, 3nat,
{
    assert forall|i: int| 0 <= i < xs.len() implies node_fits_some(#[trigger] xs[i], zs)
        == node_fits_some(ys[i], zs) by {
        node_fits_alike(xs[i], ys[i], zs);
    }
    assert forall|i: int| 0 <= i < ys.len() implies node_fits_some(#[trigger] ys[i], zs)
        == node_fits_some(xs[i], zs) by {
        node_fits_alike(xs[i], ys[i], zs);
    }
    if xs.len() == zs.len() {
        assert forall|i: int| 0 <= i < xs.len() implies node_exhaustive(#[trigger] xs[i], zs[i])
            == node_exhaustive(ys[i], zs[i]) by {
            node_alike(xs[i], ys[i], zs[i]);
        }
        assert forall|i: int| 0 <= i < ys.len() implies node_exhaustive(#[trigger] ys[i], zs[i])
            == node_exhaustive(xs[i], zs[i]) by {
            node_alike(xs[i], ys[i], zs[i]);
        }
    }
}

/// Equal lists of schemas fit the same schema element by element.
pub proof fn nodes_all_alike(xs: Seq<SchemaNode>, ys: Seq<SchemaNode>, z: SchemaNode)
    requires
        nodes_equal(xs, ys),
    ensures
        nodes_all_fit(xs, z) == nodes_all_fit(ys, z),
    decreases xs, 3nat,
{
    assert forall|i: int| 0 <= i < xs.len() implies node_subset(#[trigger] xs[i], z) == node_subset(
        ys[i],
        z,
    ) by {
        node_alike(xs[i], ys[i], z);
    }
    assert forall|i: int| 0 <= i < ys.len() implies node_subset(#[trigger] ys[i], z) == node_subset(
        xs[i],
        z,
    ) by {
        node_alike(xs[i], ys[i], z);
    }
}

/// Equal properties fit some property of the same maps.
pub proof fn prop_fits_alike(x: Property, y: Property, zs: Seq<Property>)
    requires
        x.name@ == y.name@,
        node_equal(x.schema, y.schema),
    ensures
        prop_fits_some(x, zs) == prop_fits_some(y, zs),
    decreases x, 2nat,
{
    assert forall|j: int| 0 <= j < zs.len() implies node_subset(x.schema, (#[trigger] zs[j]).schema)
        == node_subset(y.schema, zs[j].schema) by {
        node_alike(x.schema, y.schema, zs[j].schema);
    }
}

/// Equal property maps are exhaustive for the same maps and fit the same
/// maps.
pub proof fn props_alike(xs: Seq<Property>, ys: Seq<Property>, zs: Seq<Property>)
    requires
        props_equal(xs, ys),
    ensures
        props_exhaustive(xs, zs) == props_exhaustive(ys, zs),
        props_subset(xs, zs) == props_subset(ys, zs),
    decreases xs, 3nat,
{
    assert forall|i: int| 0 <= i < xs.len() implies prop_fits_some(#[trigger] xs[i], zs)
        == prop_fits_some(ys[i], zs) by {
        prop_fits_alike(xs[i], ys[i], zs);
    }
    assert forall|i: int| 0 <= i < ys.len() implies prop_fits_some(#[trigger] ys[i], zs)
        == prop_fits_some(xs[i], zs) by {
        assert(xs[i].name@ == ys[i].name@);
        prop_fits_alike(xs[i], ys[i], zs);
    }
    if xs.len() == zs.len() {
        assert forall|i: int| 0 <= i < xs.len() implies ((#[trigger] xs[i]).name@ == zs[i].name@
            && node_exhaustive(xs[i].schema, zs[i].schema)) == (ys[i].name@ == zs[i].name@
            && node_exhaustive(ys[i].schema, zs[i].schema)) by {
            node_alike(xs[i].schema, ys[i].schema, zs[i].schema);
        }
        assert forall|i: int| 0 <= i < ys.len() implies ((#[trigger] ys[i]).name@ == zs[i].name@
            && node_exhaustive(ys[i].schema, zs[i].schema)) == (xs[i].name@ == zs[i].name@
            && node_exhaustive(xs[i].schema, zs[i].schema)) by {
            assert(xs[i].name@ == ys[i].name@);
            node_alike(xs[i].schema, ys[i].schema, zs[i].schema);
        }
    }
}

/// Equal items are exhaustive for the same items and fit the same items.
pub proof fn items_alike(a: SchemaOrArray, b: SchemaOrArray, c: SchemaOrArray)
    requires
        items_equal(a, b),
    ensures
        items_exhaustive(a, c) == items_exhaustive(b, c),
        items_subset(a, c) == items_subset(b, c),
    decreases a, 0nat,
{
    match (a, b, c) {
        (SchemaOrArray::Schema(x), SchemaOrArray::Schema(y), SchemaOrArray::Schema(z)) => {
            node_alike(*x, *y, *z);
        },
        (SchemaOrArray::Schema(x), SchemaOrArray::Schema(y), SchemaOrArray::Schemas(zs)) => {
            node_fits_alike(*x, *y, zs@);
        },
        (SchemaOrArray::Schemas(xs), SchemaOrArray::Schemas(ys), SchemaOrArray::Schema(z)) => {
            nodes_all_alike(xs@, ys@, *z);
        },
        (SchemaOrArray::Schemas(xs), SchemaOrArray::Schemas(ys), SchemaOrArray::Schemas(zs)) => {
            nodes_alike(xs@, ys@, zs@);
        },
        _ => {},
    }
}

/// An equal schema or switch is exhaustive for the same and fits the same.
pub proof fn either_alike(a: SchemaOrBool, b: SchemaOrBool, c: SchemaOrBool)
    requires
        either_equal(a, b),
    ensures
        either_exhaustive(a, c) == either_exhaustive(b, c),
        either_subset(a, c) == either_subset(b, c),
    decreases a, 0nat,
{
    match (a, b, c) {
        (SchemaOrBool::Schema(x), SchemaOrBool::Schema(y), SchemaOrBool::Schema(z)) => {
            node_alike(*x, *y, *z);
        },
        _ => {},
    }
}

} // verus!
