//! What key order gives. A schema tree is meant to hold its properties in
//! the order of their keys, each key once. Two things rest on it: the
//! exhaustive comparison of two property maps, which goes position by
//! position, is then the comparison key by key; and the members of every
//! struct of the catalog, which analysis takes in the order of the
//! properties, then stand in the order of their names.

use vstd::prelude::*;
use crate::analyzer::{
    analysis, found_in_element, found_in_node, found_under, found_upto, member_for, members_upto,
    names_ascend, required_of, Config,
};
use crate::matching::{node_exhaustive, props_exhaustive};
use crate::naming::upper_camel;
use crate::output::{catalog_extend, ContainerView, MemberView};
use crate::schema::{
    either_ordered, has_property, items_ordered, keys_ascend, node_ordered, props_ordered, type_of,
    Property, SchemaNode, SchemaOrArray, SchemaOrBool,
};
use crate::text::{text_before, text_before_chains, text_before_is_strict};

verus! {

/// The two maps hold the same keys.
pub open spec fn same_keys(xs: Seq<Property>, ys: Seq<Property>) -> bool {
    forall|key: Seq<char>| has_property(xs, key) == has_property(ys, key)
}

/// Under every key that both maps hold, the schema of the first is equal to
/// that of the second in every compared field.
pub open spec fn exhaustive_by_key(xs: Seq<Property>, ys: Seq<Property>) -> bool {
    forall|i: int, j: int|
        0 <= i < xs.len() && 0 <= j < ys.len() && (#[trigger] xs[i]).name@ == (#[trigger] ys[j]).name@
            ==> node_exhaustive(xs[i].schema, ys[j].schema)
}

/// The key at position `i`.
pub open spec fn key_at(props: Seq<Property>, i: int) -> Seq<char> {
    props[i].name@
}

/// In a map in key order every key stands before every later key.
pub proof fn keys_ascend_throughout(props: Seq<Property>, i: int, j: int)
    requires
        keys_ascend(props),
        0 <= i < j < props.len(),
    ensures
        text_before(props[i].name@, props[j].name@),
        props[i].name@ != props[j].name@,
    decreases j - i,
{
    if j > i + 1 {
        keys_ascend_throughout(props, i, j - 1);
        assert(text_before(key_at(props, j - 1), key_at(props, j))) by {
            assert(text_before((#[trigger] props[j - 1]).name@, (#[trigger] props[j]).name@));
        }
        text_before_chains(props[i].name@, props[j - 1].name@, props[j].name@);
    } else {
        assert(text_before((#[trigger] props[i]).name@, (#[trigger] props[j]).name@));
    }
    text_before_is_strict(props[i].name@);
}

/// Two maps in key order that hold the same keys hold them at the same
/// positions.
pub proof fn ordered_maps_align(xs: Seq<Property>, ys: Seq<Property>)
    requires
        keys_ascend(xs),
        keys_ascend(ys),
        same_keys(xs, ys),
    ensures
        xs.len() == ys.len(),
        forall|i: int| 0 <= i < xs.len() ==> key_at(xs, i) == #[trigger] key_at(ys, i),
    decreases xs.len(),
{
    if xs.len() == 0 {
        if ys.len() > 0 {
            assert(has_property(ys, ys[0].name@));
            assert(has_property(xs, ys[0].name@));
        }
    } else {
        let top = xs.last().name@;
        assert(has_property(xs, top));
        assert(has_property(ys, top));
        let j = choose|j: int| 0 <= j < ys.len() && (#[trigger] ys[j]).name@ == top;
        let other = ys.last().name@;
        assert(has_property(ys, other));
        assert(has_property(xs, other));
        let i = choose|i: int| 0 <= i < xs.len() && (#[trigger] xs[i]).name@ == other;
        if j < ys.len() - 1 {
            keys_ascend_throughout(ys, j, ys.len() - 1);
            if i < xs.len() - 1 {
                keys_ascend_throughout(xs, i, xs.len() - 1);
                text_before_chains(top, other, top);
                text_before_is_strict(top);
            }
        }
        assert(top == other);
        let xr = xs.drop_last();
        let yr = ys.drop_last();
        assert(keys_ascend(xr)) by {
            assert forall|a: int, b: int| 0 <= a && b == a + 1 && b < xr.len() implies text_before(
                (#[trigger] xr[a]).name@,
                (#[trigger] xr[b]).name@,
            ) by {
                assert(text_before((#[trigger] xs[a]).name@, (#[trigger] xs[b]).name@));
            }
        }
        assert(keys_ascend(yr)) by {
            assert forall|a: int, b: int| 0 <= a && b == a + 1 && b < yr.len() implies text_before(
                (#[trigger] yr[a]).name@,
                (#[trigger] yr[b]).name@,
            ) by {
                assert(text_before((#[trigger] ys[a]).name@, (#[trigger] ys[b]).name@));
            }
        }
        assert forall|key: Seq<char>| has_property(xr, key) == has_property(yr, key) by {
            if has_property(xr, key) {
                let k = choose|k: int| 0 <= k < xr.len() && (#[trigger] xr[k]).name@ == key;
                assert(xs[k].name@ == key);
                keys_ascend_throughout(xs, k, xs.len() - 1);
                assert(has_property(xs, key));
                assert(has_property(ys, key));
                let m = choose|m: int| 0 <= m < ys.len() && (#[trigger] ys[m]).name@ == key;
                assert(yr[m].name@ == key);
            }
            if has_property(yr, key) {
                let k = choose|k: int| 0 <= k < yr.len() && (#[trigger] yr[k]).name@ == key;
                assert(ys[k].name@ == key);
                keys_ascend_throughout(ys, k, ys.len() - 1);
                assert(has_property(ys, key));
                assert(has_property(xs, key));
                let m = choose|m: int| 0 <= m < xs.len() && (#[trigger] xs[m]).name@ == key;
                assert(xr[m].name@ == key);
            }
        }
        ordered_maps_align(xr, yr);
        assert forall|i: int| 0 <= i < xs.len() implies key_at(xs, i) == #[trigger] key_at(ys, i) by {
            if i < xs.len() - 1 {
                assert(key_at(xr, i) == key_at(yr, i));
            }
        }
    }
}

/// For two maps in key order the exhaustive comparison is the comparison
/// key by key: the two hold the same keys, and under each key schemas that
/// are equal in every compared field.
pub proof fn exhaustive_maps_compare_by_key(xs: Seq<Property>, ys: Seq<Property>)
    requires
        keys_ascend(xs),
        keys_ascend(ys),
    ensures
        props_exhaustive(xs, ys) <==> same_keys(xs, ys) && exhaustive_by_key(xs, ys),
{
    if props_exhaustive(xs, ys) {
        assert forall|key: Seq<char>| has_property(xs, key) == has_property(ys, key) by {
            if has_property(xs, key) {
                let k = choose|k: int| 0 <= k < xs.len() && (#[trigger] xs[k]).name@ == key;
                assert(ys[k].name@ == key);
            }
            if has_property(ys, key) {
                let k = choose|k: int| 0 <= k < ys.len() && (#[trigger] ys[k]).name@ == key;
                assert(xs[k].name@ == key);
            }
        }
        assert forall|i: int, j: int|
            0 <= i < xs.len() && 0 <= j < ys.len() && (#[trigger] xs[i]).name@ == (
            #[trigger] ys[j]).name@ implies node_exhaustive(xs[i].schema, ys[j].schema) by {
            assert(xs[i].name@ == ys[i].name@);
            if i < j {
                keys_ascend_throughout(ys, i, j);
            }
            if j < i {
                keys_ascend_throughout(ys, j, i);
            }
        }
    }
    if same_keys(xs, ys) && exhaustive_by_key(xs, ys) {
        ordered_maps_align(xs, ys);
        assert forall|i: int| 0 <= i < xs.len() implies (#[trigger] xs[i]).name@ == ys[i].name@
            && node_exhaustive(xs[i].schema, ys[i].schema) by {
            assert(key_at(xs, i) == key_at(ys, i));
        }
    }
}

/// The name is the key of one of the first `n` properties.
pub open spec fn named_among(name: Seq<char>, props: Seq<Property>, n: int) -> bool {
    exists|k: int| 0 <= k < n && k < props.len() && (#[trigger] props[k]).name@ == name
}

/// The members of every struct of the list stand in the order of their
/// names.
pub open spec fn structs_ascend(found: Seq<ContainerView>) -> bool {
    forall|i: int|
        0 <= i < found.len() && !(#[trigger] found[i]).is_enum ==> names_ascend(found[i].members)
}

/// The members for properties in key order stand in the order of their
/// names, also where properties are left out; each is named as one of the
/// properties.
pub proof fn members_keep_key_order(
    props: Seq<Property>,
    n: int,
    stack: Seq<char>,
    required: Seq<String>,
    cfg: Config,
)
    requires
        keys_ascend(props),
        0 <= n <= props.len(),
        members_upto(props, n, stack, required, cfg) is Ok,
    ensures
        names_ascend(members_upto(props, n, stack, required, cfg)->Ok_0),
        forall|i: int|
            0 <= i < members_upto(props, n, stack, required, cfg)->Ok_0.len() ==> named_among(
                (#[trigger] members_upto(props, n, stack, required, cfg)->Ok_0[i]).name,
                props,
                n,
            ),
    decreases n,
{
    if n > 0 {
        members_keep_key_order(props, n - 1, stack, required, cfg);
        let before = members_upto(props, n - 1, stack, required, cfg)->Ok_0;
        let all = members_upto(props, n, stack, required, cfg)->Ok_0;
        assert forall|i: int| 0 <= i < before.len() implies named_among(
            (#[trigger] before[i]).name,
            props,
            n,
        ) by {
            let k = choose|k: int|
                0 <= k < n - 1 && k < props.len() && (#[trigger] props[k]).name@ == before[i].name;
            assert(props[k].name@ == before[i].name);
        }
        match member_for(props[n - 1], stack, required, cfg) {
            Ok(Some(m)) => {
                assert(all == before.push(m));
                assert(m.name == props[n - 1].name@);
                assert forall|i: int| 0 <= i < all.len() implies named_among(
                    (#[trigger] all[i]).name,
                    props,
                    n,
                ) by {
                    if i < before.len() {
                        assert(all[i] == before[i]);
                    } else {
                        assert(props[n - 1].name@ == all[i].name);
                    }
                }
                assert forall|i: int, j: int| 0 <= i && j == i + 1 && j < all.len() implies text_before(
                    (#[trigger] all[i]).name,
                    (#[trigger] all[j]).name,
                ) by {
                    assert(all[i] == before[i]);
                    if j < before.len() {
                        assert(all[j] == before[j]);
                        assert(text_before((#[trigger] before[i]).name, (#[trigger] before[j]).name));
                    } else {
                        let k = choose|k: int|
                            0 <= k < n - 1 && k < props.len() && (#[trigger] props[k]).name@
                                == before[i].name;
                        keys_ascend_throughout(props, k, n - 1);
                    }
                }
            },
            _ => {},
        }
    }
}

/// Two lists whose structs stand in order make one such list.
pub proof fn ordered_lists_in_a_row(a: Seq<ContainerView>, b: Seq<ContainerView>)
    requires
        structs_ascend(a),
        structs_ascend(b),
    ensures
        structs_ascend(a + b),
{
    let all = a + b;
    assert forall|i: int| 0 <= i < all.len() && !(#[trigger] all[i]).is_enum implies names_ascend(
        all[i].members,
    ) by {
        if i < a.len() {
            assert(all[i] == a[i]);
        } else {
            assert(all[i] == b[i - a.len()]);
        }
    }
}

/// A catalog whose structs stand in order keeps them so when definitions
/// whose structs stand in order are offered to it.
pub proof fn ordered_catalog_stays(catalog: Seq<ContainerView>, more: Seq<ContainerView>)
    requires
        structs_ascend(catalog),
        structs_ascend(more),
    ensures
        structs_ascend(catalog_extend(catalog, more)),
    decreases more.len(),
{
    if more.len() > 0 {
        let rest = more.drop_last();
        assert forall|i: int| 0 <= i < rest.len() && !(#[trigger] rest[i]).is_enum implies names_ascend(
            rest[i].members,
        ) by {
            assert(rest[i] == more[i]);
        }
        ordered_catalog_stays(catalog, rest);
        let before = catalog_extend(catalog, rest);
        let after = catalog_extend(catalog, more);
        assert forall|i: int| 0 <= i < after.len() && !(#[trigger] after[i]).is_enum implies names_ascend(
            after[i].members,
        ) by {
            if i < before.len() {
                assert(after[i] == before[i]);
            } else {
                assert(after[i] == more[more.len() - 1]);
            }
        }
    }
}

/// The struct for properties in key order holds its members in the order
/// of their names.
pub proof fn struct_keeps_key_order(
    props: Seq<Property>,
    name: Seq<char>,
    level: u8,
    holder: SchemaNode,
    owner: SchemaNode,
    cfg: Config,
)
    requires
        keys_ascend(props),
        crate::analyzer::struct_for(props, name, level, holder, owner, cfg) is Ok,
    ensures
        structs_ascend(seq![crate::analyzer::struct_for(props, name, level, holder, owner, cfg)->Ok_0]),
{
    members_keep_key_order(props, props.len() as int, name, required_of(holder), cfg);
}

/// In an ordered node, every struct that is found holds its members in the
/// order of their names.
pub proof fn node_keeps_key_order(schema: SchemaNode, stack: Seq<char>, level: u8, cfg: Config)
    requires
        node_ordered(schema),
        found_in_node(schema, stack, level, cfg) is Ok,
    ensures
        structs_ascend(found_in_node(schema, stack, level, cfg)->Ok_0),
    decreases schema, 2nat,
{
    let name = upper_camel(stack);
    let found = found_in_node(schema, stack, level, cfg)->Ok_0;
    let object = type_of(schema) == "object"@;
    match schema.additional_properties {
        Some(SchemaOrBool::Schema(s)) => {
            assert(either_ordered(schema.additional_properties->0));
            assert(node_ordered(*s));
            match s.properties {
                Some(extra) => {
                    assert(keys_ascend(extra@) && props_ordered(extra@));
                    props_keep_key_order(extra@, extra.len() as int, name, level, schema, cfg, object);
                    if object {
                        struct_keeps_key_order(extra@, name, level, *s, schema, cfg);
                        ordered_lists_in_a_row(
                            seq![crate::analyzer::struct_for(extra@, name, level, *s, schema, cfg)->Ok_0],
                            found_upto(extra@, extra.len() as int, name, level, schema, cfg, true)->Ok_0,
                        );
                    }
                },
                None => {
                    if object && type_of(*s) == "object"@ {
                        node_keeps_key_order(*s, name, level, cfg);
                    }
                },
            }
        },
        _ => {
            match schema.properties {
                Some(props) => {
                    assert(keys_ascend(props@) && props_ordered(props@));
                    if object {
                        if !(props.len() == 0 && schema.x_kubernetes_preserve_unknown_fields == Some(
                            true,
                        )) {
                            props_keep_key_order(props@, props.len() as int, name, level, schema, cfg, true);
                            struct_keeps_key_order(props@, name, level, schema, schema, cfg);
                            ordered_lists_in_a_row(
                                seq![
                                    crate::analyzer::struct_for(props@, name, level, schema, schema, cfg)->Ok_0,
                                ],
                                found_upto(props@, props.len() as int, name, level, schema, cfg, true)->Ok_0,
                            );
                        }
                    } else {
                        props_keep_key_order(props@, props.len() as int, name, level, schema, cfg, false);
                    }
                },
                None => {
                    if object && schema.x_kubernetes_preserve_unknown_fields != Some(true) {
                        struct_keeps_key_order(Seq::empty(), name, level, schema, schema, cfg);
                    }
                },
            }
        },
    }
}

/// Under ordered properties, every struct that is found holds its members
/// in the order of their names.
pub proof fn props_keep_key_order(
    props: Seq<Property>,
    n: int,
    stack: Seq<char>,
    level: u8,
    owner: SchemaNode,
    cfg: Config,
    extracted: bool,
)
    requires
        props_ordered(props),
        found_upto(props, n, stack, level, owner, cfg, extracted) is Ok,
    ensures
        structs_ascend(found_upto(props, n, stack, level, owner, cfg, extracted)->Ok_0),
    decreases props, 1nat, n,
{
    if !(n <= 0 || n > props.len()) {
        props_keep_key_order(props, n - 1, stack, level, owner, cfg, extracted);
        assert(node_ordered(props[n - 1].schema));
        prop_keeps_key_order(props[n - 1], stack, level, owner, cfg, extracted);
        ordered_lists_in_a_row(
            found_upto(props, n - 1, stack, level, owner, cfg, extracted)->Ok_0,
            found_under(props[n - 1], stack, level, owner, cfg, extracted)->Ok_0,
        );
    }
}

/// Under a property with an ordered schema, every struct that is found
/// holds its members in the order of their names.
pub proof fn prop_keeps_key_order(
    prop: Property,
    stack: Seq<char>,
    level: u8,
    owner: SchemaNode,
    cfg: Config,
    extracted: bool,
)
    requires
        node_ordered(prop.schema),
        found_under(prop, stack, level, owner, cfg, extracted) is Ok,
    ensures
        structs_ascend(found_under(prop, stack, level, owner, cfg, extracted)->Ok_0),
    decreases prop, 0nat,
{
    let key = prop.name@;
    let t = type_of(prop.schema);
    let below = crate::analyzer::nested_name(stack, key);
    let found = found_under(prop, stack, level, owner, cfg, extracted)->Ok_0;
    if level == 0 && crate::analyzer::is_ignored_key(key) {
    } else if cfg.overrides.action_for(key, prop.schema) is Some {
    } else if t == "object"@ {
        if !crate::analyzer::reads_as_object_ref(prop.schema, cfg) && level != 255 {
            let next = (level + 1) as u8;
            match prop.schema.additional_properties {
                Some(SchemaOrBool::Schema(s)) => {
                    assert(either_ordered(prop.schema.additional_properties->0));
                    assert(node_ordered(*s));
                    if type_of(*s) == "array"@ {
                        match s.items {
                            Some(SchemaOrArray::Schema(element)) => {
                                assert(items_ordered(s.items->0));
                                assert(node_ordered(*element));
                                node_keeps_key_order(*element, below, next, cfg);
                            },
                            _ => {
                                node_keeps_key_order(prop.schema, below, next, cfg);
                            },
                        }
                    } else {
                        node_keeps_key_order(prop.schema, below, next, cfg);
                    }
                },
                _ => {
                    node_keeps_key_order(prop.schema, below, next, cfg);
                },
            }
        }
    } else if t == "array"@ {
        if extracted {
            match crate::analyzer::array_level(prop, stack, cfg) {
                None => {},
                Some(depth) => {
                    if level != 255 {
                        element_keeps_key_order(
                            prop.schema,
                            depth,
                            below,
                            (level + 1) as u8,
                            stack,
                            key,
                            cfg,
                        );
                    }
                },
            }
        }
    } else if t.len() == 0 {
    } else {
        match prop.schema.enum_ {
            Some(values) => {
                assert(found[0].is_enum);
            },
            None => {},
        }
    }
}

/// In the element of ordered arrays, every struct that is found holds its
/// members in the order of their names.
pub proof fn element_keeps_key_order(
    value: SchemaNode,
    depth: nat,
    below: Seq<char>,
    level: u8,
    stack: Seq<char>,
    key: Seq<char>,
    cfg: Config,
)
    requires
        node_ordered(value),
        found_in_element(value, depth, below, level, stack, key, cfg) is Ok,
    ensures
        structs_ascend(found_in_element(value, depth, below, level, stack, key, cfg)->Ok_0),
    decreases value, 3nat,
{
    if depth == 0 {
        node_keeps_key_order(value, below, level, cfg);
    } else {
        match value.items {
            Some(SchemaOrArray::Schema(s)) => {
                assert(items_ordered(value.items->0));
                assert(node_ordered(*s));
                element_keeps_key_order(*s, (depth - 1) as nat, below, level, stack, key, cfg);
            },
            _ => {},
        }
    }
}

/// In the catalog for an ordered schema tree, every struct holds its
/// members in the order of their names, whatever the override rules leave
/// out.
pub proof fn analysis_keeps_key_order(schema: SchemaNode, kind: Seq<char>, cfg: Config)
    requires
        node_ordered(schema),
        analysis(schema, kind, cfg) is Ok,
    ensures
        structs_ascend(analysis(schema, kind, cfg)->Ok_0),
{
    node_keeps_key_order(schema, kind, 0, cfg);
    ordered_catalog_stays(Seq::empty(), found_in_node(schema, kind, 0, cfg)->Ok_0);
}

} // verus!
