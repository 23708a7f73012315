//! Analysis: the walk over a schema that finds the definitions to generate.
//!
//! The walk is depth first. A node of type `object` gives one struct
//! definition, named by the path from the root kind down to it; each of its
//! properties gives one member, and is then searched for further definitions.
//! The catalog that comes out holds every definition found, in the order in
//! which the walk found it, each name once.

use vstd::prelude::*;
use crate::matching::{str_is_in, text_in};
use crate::naming::{to_upper_camel, upper_camel};
use crate::output::{
    catalog_extend, catalog_extend_concat, catalog_extend_one, member_views, Container,
    ContainerView, Member, MemberView, Output,
};
use crate::overrides::{Overrides, PropertyAction};
use crate::schema::{
    has_property, keys_ascend, type_of, JsonNumber, JsonValue, Property, SchemaNode,
    SchemaOrArray, SchemaOrBool,
};
use crate::text::{concat, decimal, decimal_digits, opt_text, str_eq, texts};
use crate::types::{rendered, MapType, Primitive, TypeRef, TypeShape, WellKnown};
use vstd::string::StringExecFns;

verus! {

/// How a schema is read.
#[derive(Debug)]
pub struct Config {
    /// Do not recognise lists of conditions.
    pub no_condition: bool,
    /// Do not recognise object references.
    pub no_object_reference: bool,
    /// The map type that `additionalProperties` turns into.
    pub map: MapType,
    /// Read a value without type or shape as a map of untyped values instead
    /// of failing.
    pub relaxed: bool,
    /// The rules that take the place of what analysis would infer.
    pub overrides: Overrides,
}

/// What analysis cannot turn into a definition.
#[derive(Debug, Clone, Copy, PartialEq, Eq, Structural)]
pub enum Issue {
    /// An array whose items are given position by position.
    TupleItems,
    /// An array without items.
    MissingItems,
    /// An array of arrays whose inner array has no items.
    EmptyInnerArray,
    /// An array whose items have no type and no extension that resolves them.
    UntypedItems,
    /// An array whose items have a type that is not known.
    UnsupportedItems,
    /// A value without type and without an extension that resolves it.
    UntypedValue,
    /// A property whose type is not known.
    UnknownType,
    /// A date whose format is not known.
    UnknownDateFormat,
    /// An enum value that is a negative or fractional number.
    SignedOrFloatVariant,
    /// An enum value that is neither a string nor a number.
    UnsupportedVariant,
    /// An enum that mixes strings and numbers.
    MixedVariants,
    /// More than 255 levels of nesting.
    TooDeep,
}

/// Why analysis failed, and at which property.
#[derive(Debug)]
pub struct AnalysisError {
    /// What was found.
    pub issue: Issue,
    /// The name of the definition that holds the property.
    pub stack: String,
    /// The key of the property.
    pub key: String,
}

/// What an `AnalysisError` holds.
pub struct Failure {
    pub issue: Issue,
    pub stack: Seq<char>,
    pub key: Seq<char>,
}

impl View for AnalysisError {
    type V = Failure;

    open spec fn view(&self) -> Failure {
        Failure { issue: self.issue, stack: self.stack@, key: self.key@ }
    }
}

/// What an issue is, in words.
pub open spec fn issue_text(issue: Issue) -> Seq<char> {
    match issue {
        Issue::TupleItems => "only a single schema is supported in an array"@,
        Issue::MissingItems => "missing items in array type"@,
        Issue::EmptyInnerArray => "empty inner array"@,
        Issue::UntypedItems => "unknown empty array type"@,
        Issue::UnsupportedItems => "unsupported recursive array type"@,
        Issue::UntypedValue => "unknown empty dict type"@,
        Issue::UnknownType => "unknown type"@,
        Issue::UnknownDateFormat => "unknown date format"@,
        Issue::SignedOrFloatVariant => "enum member cannot have signed/floating discriminants"@,
        Issue::UnsupportedVariant => "enum member is neither a string nor a number"@,
        Issue::MixedVariants => "enum mixes strings and numbers"@,
        Issue::TooDeep => "more than 255 levels of nesting"@,
    }
}

/// What a failure says: the issue, the key of the property and the name of
/// the definition that holds it.
pub open spec fn failure_text(e: Failure) -> Seq<char> {
    issue_text(e.issue) + " for "@ + e.key + " (under "@ + e.stack + ")"@
}

impl Issue {
    /// What the issue is, in words.
    pub fn describe(&self) -> (r: &'static str)
        ensures
            r@ == issue_text(*self),
    {
        match self {
            Issue::TupleItems => "only a single schema is supported in an array",
            Issue::MissingItems => "missing items in array type",
            Issue::EmptyInnerArray => "empty inner array",
            Issue::UntypedItems => "unknown empty array type",
            Issue::UnsupportedItems => "unsupported recursive array type",
            Issue::UntypedValue => "unknown empty dict type",
            Issue::UnknownType => "unknown type",
            Issue::UnknownDateFormat => "unknown date format",
            Issue::SignedOrFloatVariant => "enum member cannot have signed/floating discriminants",
            Issue::UnsupportedVariant => "enum member is neither a string nor a number",
            Issue::MixedVariants => "enum mixes strings and numbers",
            Issue::TooDeep => "more than 255 levels of nesting",
        }
    }
}

impl AnalysisError {
    /// What the error says.
    pub fn message(&self) -> (r: String)
        ensures
            r@ == failure_text(self@),
    {
        let mut r = String::from_str(self.issue.describe());
        r.append(" for ");
        r.append(self.key.as_str());
        r.append(" (under ");
        r.append(self.stack.as_str());
        r.append(")");
        r
    }
}

/// The failure with the given issue at the given property.
pub open spec fn failure(issue: Issue, stack: Seq<char>, key: Seq<char>) -> Failure {
    Failure { issue, stack, key }
}

/// The type of a date: by the format, a plain string where there is none.
pub open spec fn date_type(value: SchemaNode) -> Result<Primitive, Issue> {
    match value.format {
        None => Ok(Primitive::String),
        Some(f) => if f@ == "date"@ {
            Ok(Primitive::Date)
        } else if f@ == "date-time"@ {
            Ok(Primitive::DateTime)
        } else {
            Err(Issue::UnknownDateFormat)
        },
    }
}

/// The type of a number: `f32` for the format `float`, else `f64`.
pub open spec fn number_type(value: SchemaNode) -> Primitive {
    match value.format {
        Some(f) => if f@ == "float"@ {
            Primitive::F32
        } else {
            Primitive::F64
        },
        None => Primitive::F64,
    }
}

/// The type of an integer: by the format, `i64` where it is absent or not
/// known.
pub open spec fn integer_type(value: SchemaNode) -> Primitive {
    match value.format {
        Some(f) => if f@ == "int8"@ {
            Primitive::I8
        } else if f@ == "int16"@ {
            Primitive::I16
        } else if f@ == "int32"@ {
            Primitive::I32
        } else if f@ == "int64"@ {
            Primitive::I64
        } else if f@ == "int128"@ {
            Primitive::I128
        } else if f@ == "uint8"@ {
            Primitive::U8
        } else if f@ == "uint16"@ {
            Primitive::U16
        } else if f@ == "uint32"@ {
            Primitive::U32
        } else if f@ == "uint64"@ {
            Primitive::U64
        } else if f@ == "uint128"@ {
            Primitive::U128
        } else {
            Primitive::I64
        },
        None => Primitive::I64,
    }
}

/// The node has exactly the seven properties of an object reference.
pub open spec fn has_reference_shape(value: SchemaNode) -> bool {
    match value.properties {
        Some(p) => {
            &&& p.len() == 7
            &&& has_property(p@, "apiVersion"@)
            &&& has_property(p@, "fieldPath"@)
            &&& has_property(p@, "kind"@)
            &&& has_property(p@, "name"@)
            &&& has_property(p@, "namespace"@)
            &&& has_property(p@, "resourceVersion"@)
            &&& has_property(p@, "uid"@)
        },
        None => false,
    }
}

/// The node is an array of object references.
pub open spec fn lists_reference_shapes(value: SchemaNode) -> bool {
    match value.items {
        Some(SchemaOrArray::Schema(element)) => has_reference_shape(*element),
        _ => false,
    }
}

/// The node is an array whose elements hold the five properties of a
/// condition.
pub open spec fn has_condition_shape(value: SchemaNode) -> bool {
    match value.items {
        Some(SchemaOrArray::Schema(element)) => match element.properties {
            Some(p) => {
                &&& has_property(p@, "type"@)
                &&& has_property(p@, "status"@)
                &&& has_property(p@, "reason"@)
                &&& has_property(p@, "message"@)
                &&& has_property(p@, "lastTransitionTime"@)
            },
            None => false,
        },
        _ => false,
    }
}

/// The object is an object reference and is read as one: the detection is
/// on and the node has no schema for further properties.
pub open spec fn reads_as_object_ref(value: SchemaNode, cfg: Config) -> bool {
    &&& !cfg.no_object_reference
    &&& has_reference_shape(value)
    &&& !(value.additional_properties matches Some(SchemaOrBool::Schema(_)))
}

/// Every alternative of the node names a type.
pub open spec fn alternatives_typed(value: SchemaNode) -> bool {
    match value.one_of {
        Some(list) => forall|i: int| 0 <= i < list.len() ==> (#[trigger] list@[i]).type_ is Some,
        None => false,
    }
}

/// The name of the definition for the property `key` of the definition
/// `stack`.
pub open spec fn nested_name(stack: Seq<char>, key: Seq<char>) -> Seq<char> {
    stack + upper_camel(key)
}

/// The type of an object: a map where the node describes further
/// properties or keeps unknown fields, an object reference where it has the
/// shape of one, else the definition that is generated for it.
pub open spec fn object_type(value: SchemaNode, stack: Seq<char>, key: Seq<char>, cfg: Config) -> Result<
    TypeShape,
    Failure,
>
    decreases value, 1nat,
{
    match value.additional_properties {
        Some(additional) => match additional_type(additional, stack, key, cfg) {
            Err(e) => Err(e),
            Ok(Some(element)) => Ok(TypeShape::MapOf(Box::new(element))),
            Ok(None) => Ok(plain_object_type(value, stack, key, cfg)),
        },
        None => if value.properties is None && value.x_kubernetes_preserve_unknown_fields == Some(
            true,
        ) {
            Ok(TypeShape::MapOf(Box::new(TypeShape::Opaque)))
        } else {
            Ok(plain_object_type(value, stack, key, cfg))
        },
    }
}

/// The type of an object that is no map.
pub open spec fn plain_object_type(
    value: SchemaNode,
    stack: Seq<char>,
    key: Seq<char>,
    cfg: Config,
) -> TypeShape {
    if !cfg.no_object_reference && has_reference_shape(value) {
        TypeShape::WellKnown(WellKnown::ObjectReference)
    } else {
        TypeShape::Reference(nested_name(stack, key))
    }
}

/// The type of the values of a map, none where `additionalProperties` is a
/// plain switch.
pub open spec fn additional_type(
    additional: SchemaOrBool,
    stack: Seq<char>,
    key: Seq<char>,
    cfg: Config,
) -> Result<Option<TypeShape>, Failure>
    decreases additional, 0nat,
{
    match additional {
        SchemaOrBool::Bool(_) => Ok(None),
        SchemaOrBool::Schema(s) => {
            let t = type_of(*s);
            if t == "string"@ {
                Ok(Some(TypeShape::Primitive(Primitive::String)))
            } else if t == "array"@ {
                match array_type(*s, stack, key, 1, cfg) {
                    Ok((element, _)) => Ok(Some(element)),
                    Err(e) => Err(e),
                }
            } else if t == "object"@ {
                match object_type(*s, stack, key, cfg) {
                    Ok(element) => Ok(Some(element)),
                    Err(e) => Err(e),
                }
            } else if t.len() == 0 {
                if s.x_kubernetes_int_or_string is Some {
                    Ok(Some(TypeShape::WellKnown(WellKnown::IntOrString)))
                } else if s.x_kubernetes_preserve_unknown_fields == Some(true) {
                    Ok(Some(TypeShape::Opaque))
                } else {
                    Err(failure(Issue::UntypedValue, stack, key))
                }
            } else if t == "boolean"@ {
                Ok(Some(TypeShape::Primitive(Primitive::Bool)))
            } else if t == "number"@ {
                Ok(Some(TypeShape::Primitive(number_type(*s))))
            } else if t == "integer"@ {
                Ok(Some(TypeShape::Primitive(integer_type(*s))))
            } else {
                Ok(Some(TypeShape::Reference(upper_camel(t))))
            }
        },
    }
}

/// The type of an array, and how many arrays stand inside each other down
/// to the element. `level` counts the arrays from the property down to
/// `value`, which is the first where `level` is 1. The scalar type of the
/// element is read from the element's own type and format.
pub open spec fn array_type(
    value: SchemaNode,
    stack: Seq<char>,
    key: Seq<char>,
    level: nat,
    cfg: Config,
) -> Result<(TypeShape, nat), Failure>
    decreases value, 0nat,
{
    match value.items {
        None => Err(failure(Issue::MissingItems, stack, key)),
        Some(SchemaOrArray::Schemas(_)) => Err(failure(Issue::TupleItems, stack, key)),
        Some(SchemaOrArray::Schema(s)) => {
            let t = type_of(*s);
            if s.type_ is None && s.x_kubernetes_preserve_unknown_fields == Some(true) {
                Ok((TypeShape::List(Box::new(TypeShape::Opaque)), level))
            } else if t == "object"@ {
                match object_type(*s, stack, key, cfg) {
                    Ok(element) => Ok((TypeShape::List(Box::new(element)), level)),
                    Err(e) => Err(e),
                }
            } else if t == "string"@ {
                Ok((TypeShape::List(Box::new(TypeShape::Primitive(Primitive::String))), level))
            } else if t == "boolean"@ {
                Ok((TypeShape::List(Box::new(TypeShape::Primitive(Primitive::Bool))), level))
            } else if t == "date"@ {
                match date_type(*s) {
                    Ok(p) => Ok((TypeShape::List(Box::new(TypeShape::Primitive(p))), level)),
                    Err(issue) => Err(failure(issue, stack, key)),
                }
            } else if t == "number"@ {
                Ok((TypeShape::List(Box::new(TypeShape::Primitive(number_type(*s)))), level))
            } else if t == "integer"@ {
                Ok((TypeShape::List(Box::new(TypeShape::Primitive(integer_type(*s)))), level))
            } else if t == "array"@ {
                if s.items is Some {
                    if level >= 255 {
                        Err(failure(Issue::TooDeep, stack, key))
                    } else {
                        match array_type(*s, stack, key, level + 1, cfg) {
                            Ok((element, depth)) => Ok((TypeShape::List(Box::new(element)), depth)),
                            Err(e) => Err(e),
                        }
                    }
                } else if cfg.relaxed {
                    Ok((TypeShape::MapOf(Box::new(TypeShape::Opaque)), level))
                } else {
                    Err(failure(Issue::EmptyInnerArray, stack, key))
                }
            } else if t.len() == 0 {
                if s.x_kubernetes_int_or_string is Some {
                    Ok((TypeShape::List(Box::new(TypeShape::WellKnown(WellKnown::IntOrString))), level))
                } else {
                    Err(failure(Issue::UntypedItems, stack, key))
                }
            } else {
                Err(failure(Issue::UnsupportedItems, stack, key))
            }
        },
    }
}

/// The type that analysis infers for the property `key` of the definition
/// `stack`, before it is made optional.
pub open spec fn member_type(value: SchemaNode, stack: Seq<char>, key: Seq<char>, cfg: Config) -> Result<
    TypeShape,
    Failure,
> {
    let t = type_of(value);
    if t == "object"@ {
        object_type(value, stack, key, cfg)
    } else if t == "string"@ {
        if value.enum_ is Some {
            Ok(TypeShape::Reference(nested_name(stack, key)))
        } else {
            Ok(TypeShape::Primitive(Primitive::String))
        }
    } else if t == "boolean"@ {
        Ok(TypeShape::Primitive(Primitive::Bool))
    } else if t == "date"@ {
        match date_type(value) {
            Ok(p) => Ok(TypeShape::Primitive(p)),
            Err(issue) => Err(failure(issue, stack, key)),
        }
    } else if t == "number"@ {
        Ok(TypeShape::Primitive(number_type(value)))
    } else if t == "integer"@ {
        Ok(TypeShape::Primitive(integer_type(value)))
    } else if t == "array"@ {
        match array_type(value, stack, key, 1, cfg) {
            Err(e) => Err(e),
            Ok((inferred, _)) => if !cfg.no_condition && has_condition_shape(value) {
                Ok(TypeShape::List(Box::new(TypeShape::WellKnown(WellKnown::Condition))))
            } else if !cfg.no_object_reference && lists_reference_shapes(value) {
                Ok(TypeShape::List(Box::new(TypeShape::WellKnown(WellKnown::ObjectReference))))
            } else {
                Ok(inferred)
            },
        }
    } else if t.len() == 0 {
        if value.x_kubernetes_int_or_string is Some {
            Ok(TypeShape::WellKnown(WellKnown::IntOrString))
        } else if value.x_kubernetes_preserve_unknown_fields == Some(true) || alternatives_typed(
            value,
        ) {
            Ok(TypeShape::Opaque)
        } else if cfg.relaxed {
            Ok(TypeShape::MapOf(Box::new(TypeShape::Opaque)))
        } else {
            Err(failure(Issue::UntypedValue, stack, key))
        }
    } else {
        Err(failure(Issue::UnknownType, stack, key))
    }
}


/// The inferred type is the expected one, or the failure is.
pub open spec fn type_agrees(r: Result<TypeRef, AnalysisError>, expected: Result<TypeShape, Failure>) -> bool {
    match r {
        Ok(t) => expected == Ok::<TypeShape, Failure>(t@),
        Err(e) => expected == Err::<TypeShape, Failure>(e@),
    }
}

/// The failure with the given issue at the given property.
fn fail<T>(issue: Issue, stack: &str, key: &str) -> (r: Result<T, AnalysisError>)
    ensures
        r matches Err(e) && e@ == failure(issue, stack@, key@),
{
    Err(AnalysisError { issue, stack: String::from_str(stack), key: String::from_str(key) })
}

/// The type of a date, by its format.
fn extract_date_type(value: &SchemaNode) -> (r: Result<Primitive, Issue>)
    ensures
        r == date_type(*value),
{
    match &value.format {
        None => Ok(Primitive::String),
        Some(f) => {
            if str_eq(f.as_str(), "date") {
                Ok(Primitive::Date)
            } else if str_eq(f.as_str(), "date-time") {
                Ok(Primitive::DateTime)
            } else {
                Err(Issue::UnknownDateFormat)
            }
        },
    }
}

/// The type of a number, by its format.
fn extract_number_type(value: &SchemaNode) -> (r: Primitive)
    ensures
        r == number_type(*value),
{
    match &value.format {
        Some(f) => {
            if str_eq(f.as_str(), "float") {
                Primitive::F32
            } else {
                Primitive::F64
            }
        },
        None => Primitive::F64,
    }
}

/// The type of an integer, by its format.
fn extract_integer_type(value: &SchemaNode) -> (r: Primitive)
    ensures
        r == integer_type(*value),
{
    match &value.format {
        Some(f) => {
            let f = f.as_str();
            if str_eq(f, "int8") {
                Primitive::I8
            } else if str_eq(f, "int16") {
                Primitive::I16
            } else if str_eq(f, "int32") {
                Primitive::I32
            } else if str_eq(f, "int64") {
                Primitive::I64
            } else if str_eq(f, "int128") {
                Primitive::I128
            } else if str_eq(f, "uint8") {
                Primitive::U8
            } else if str_eq(f, "uint16") {
                Primitive::U16
            } else if str_eq(f, "uint32") {
                Primitive::U32
            } else if str_eq(f, "uint64") {
                Primitive::U64
            } else if str_eq(f, "uint128") {
                Primitive::U128
            } else {
                Primitive::I64
            }
        },
        None => Primitive::I64,
    }
}

/// Whether the node has exactly the seven properties of an object reference.
pub fn is_object_ref(value: &SchemaNode) -> (r: bool)
    ensures
        r == has_reference_shape(*value),
{
    match &value.properties {
        Some(p) => {
            p.len() == 7 && SchemaNode::has_key(p, "apiVersion") && SchemaNode::has_key(
                p,
                "fieldPath",
            ) && SchemaNode::has_key(p, "kind") && SchemaNode::has_key(p, "name")
                && SchemaNode::has_key(p, "namespace") && SchemaNode::has_key(p, "resourceVersion")
                && SchemaNode::has_key(p, "uid")
        },
        None => false,
    }
}

/// Whether the node is an array of object references.
fn is_object_ref_list(value: &SchemaNode) -> (r: bool)
    ensures
        r == lists_reference_shapes(*value),
{
    match &value.items {
        Some(SchemaOrArray::Schema(element)) => is_object_ref(element),
        _ => false,
    }
}

/// Whether the node is an array whose elements hold the five properties of
/// a condition.
fn is_conditions(value: &SchemaNode) -> (r: bool)
    ensures
        r == has_condition_shape(*value),
{
    match &value.items {
        Some(SchemaOrArray::Schema(element)) => match &element.properties {
            Some(p) => {
                SchemaNode::has_key(p, "type") && SchemaNode::has_key(p, "status")
                    && SchemaNode::has_key(p, "reason") && SchemaNode::has_key(p, "message")
                    && SchemaNode::has_key(p, "lastTransitionTime")
            },
            None => false,
        },
        _ => false,
    }
}

/// Whether the object is read as an object reference.
fn is_read_as_object_ref(value: &SchemaNode, cfg: &Config) -> (r: bool)
    ensures
        r == reads_as_object_ref(*value, *cfg),
{
    if cfg.no_object_reference {
        return false;
    }
    if !is_object_ref(value) {
        return false;
    }
    match &value.additional_properties {
        Some(SchemaOrBool::Schema(_)) => false,
        _ => true,
    }
}

/// Whether every alternative of the node names a type.
fn has_typed_alternatives(value: &SchemaNode) -> (r: bool)
    ensures
        r == alternatives_typed(*value),
{
    match &value.one_of {
        Some(list) => {
            let mut i: usize = 0;
            while i < list.len()
                invariant
                    value.one_of == Some(*list),
                    i <= list.len(),
                    forall|k: int| 0 <= k < i ==> (#[trigger] list@[k]).type_ is Some,
                decreases list.len() - i,
            {
                if list[i].type_.is_none() {
                    assert(list@[i as int].type_ is None);
                    return false;
                }
                i += 1;
            }
            true
        },
        None => false,
    }
}

/// The name of the definition for the property `key` of the definition
/// `stack`.
fn nested_name_of(stack: &str, key: &str) -> (r: String)
    ensures
        r@ == nested_name(stack@, key@),
{
    let tail = to_upper_camel(key);
    concat(stack, tail.as_str())
}

/// The type of an object that is no map.
fn plain_object_type_of(value: &SchemaNode, stack: &str, key: &str, cfg: &Config) -> (r: TypeRef)
    ensures
        r@ == plain_object_type(*value, stack@, key@, *cfg),
{
    if !cfg.no_object_reference && is_object_ref(value) {
        TypeRef::well_known(WellKnown::ObjectReference)
    } else {
        TypeRef::reference(nested_name_of(stack, key))
    }
}

/// The type of an object.
fn extract_object_type(value: &SchemaNode, stack: &str, key: &str, cfg: &Config) -> (r: Result<
    TypeRef,
    AnalysisError,
>)
    ensures
        type_agrees(r, object_type(*value, stack@, key@, *cfg)),
    decreases value, 1nat,
{
    match &value.additional_properties {
        Some(additional) => match resolve_additional_properties(additional, stack, key, cfg) {
            Err(e) => Err(e),
            Ok(Some(element)) => Ok(TypeRef::map_of(element)),
            Ok(None) => Ok(plain_object_type_of(value, stack, key, cfg)),
        },
        None => {
            let keeps_unknown = match value.x_kubernetes_preserve_unknown_fields {
                Some(b) => b,
                None => false,
            };
            if value.properties.is_none() && keeps_unknown {
                Ok(TypeRef::map_of(TypeRef::opaque()))
            } else {
                Ok(plain_object_type_of(value, stack, key, cfg))
            }
        },
    }
}

/// The type of the values of a map, none where `additionalProperties` is a
/// plain switch.
fn resolve_additional_properties(additional: &SchemaOrBool, stack: &str, key: &str, cfg: &Config) -> (r:
    Result<Option<TypeRef>, AnalysisError>)
    ensures
        match r {
            Ok(Some(t)) => additional_type(*additional, stack@, key@, *cfg) == Ok::<
                Option<TypeShape>,
                Failure,
            >(Some(t@)),
            Ok(None) => additional_type(*additional, stack@, key@, *cfg) == Ok::<
                Option<TypeShape>,
                Failure,
            >(None),
            Err(e) => additional_type(*additional, stack@, key@, *cfg) == Err::<
                Option<TypeShape>,
                Failure,
            >(e@),
        },
    decreases additional, 0nat,
{
    match additional {
        SchemaOrBool::Bool(_) => Ok(None),
        SchemaOrBool::Schema(s) => {
            if s.type_is("string") {
                Ok(Some(TypeRef::primitive(Primitive::String)))
            } else if s.type_is("array") {
                match array_recurse_for_type(s, stack, key, 1, cfg) {
                    Ok((element, _)) => Ok(Some(element)),
                    Err(e) => Err(e),
                }
            } else if s.type_is("object") {
                match extract_object_type(s, stack, key, cfg) {
                    Ok(element) => Ok(Some(element)),
                    Err(e) => Err(e),
                }
            } else if s.type_is_empty() {
                if s.x_kubernetes_int_or_string.is_some() {
                    Ok(Some(TypeRef::well_known(WellKnown::IntOrString)))
                } else if keeps_unknown_fields(s) {
                    Ok(Some(TypeRef::opaque()))
                } else {
                    fail(Issue::UntypedValue, stack, key)
                }
            } else if s.type_is("boolean") {
                Ok(Some(TypeRef::primitive(Primitive::Bool)))
            } else if s.type_is("number") {
                Ok(Some(TypeRef::primitive(extract_number_type(s))))
            } else if s.type_is("integer") {
                Ok(Some(TypeRef::primitive(extract_integer_type(s))))
            } else {
                let name = match &s.type_ {
                    Some(t) => to_upper_camel(t.as_str()),
                    None => to_upper_camel(""),
                };
                proof {
                    reveal_strlit("");
                }
                Ok(Some(TypeRef::reference(name)))
            }
        },
    }
}

/// Whether the node keeps unknown fields.
fn keeps_unknown_fields(value: &SchemaNode) -> (r: bool)
    ensures
        r == (value.x_kubernetes_preserve_unknown_fields == Some(true)),
{
    match value.x_kubernetes_preserve_unknown_fields {
        Some(b) => b,
        None => false,
    }
}

/// The type of an array, and how many arrays stand inside each other down
/// to the element.
fn array_recurse_for_type(value: &SchemaNode, stack: &str, key: &str, level: u8, cfg: &Config) -> (r: Result<
    (TypeRef, u8),
    AnalysisError,
>)
    ensures
        match r {
            Ok((t, depth)) => array_type(*value, stack@, key@, level as nat, *cfg) == Ok::<
                (TypeShape, nat),
                Failure,
            >((t@, depth as nat)),
            Err(e) => array_type(*value, stack@, key@, level as nat, *cfg) == Err::<
                (TypeShape, nat),
                Failure,
            >(e@),
        },
    decreases value, 0nat,
{
    match &value.items {
        None => fail(Issue::MissingItems, stack, key),
        Some(SchemaOrArray::Schemas(_)) => fail(Issue::TupleItems, stack, key),
        Some(SchemaOrArray::Schema(s)) => {
            if s.type_.is_none() && keeps_unknown_fields(s) {
                Ok((TypeRef::list_of(TypeRef::opaque()), level))
            } else if s.type_is("object") {
                match extract_object_type(s, stack, key, cfg) {
                    Ok(element) => Ok((TypeRef::list_of(element), level)),
                    Err(e) => Err(e),
                }
            } else if s.type_is("string") {
                Ok((TypeRef::list_of(TypeRef::primitive(Primitive::String)), level))
            } else if s.type_is("boolean") {
                Ok((TypeRef::list_of(TypeRef::primitive(Primitive::Bool)), level))
            } else if s.type_is("date") {
                match extract_date_type(s) {
                    Ok(p) => Ok((TypeRef::list_of(TypeRef::primitive(p)), level)),
                    Err(issue) => fail(issue, stack, key),
                }
            } else if s.type_is("number") {
                Ok((TypeRef::list_of(TypeRef::primitive(extract_number_type(s))), level))
            } else if s.type_is("integer") {
                Ok((TypeRef::list_of(TypeRef::primitive(extract_integer_type(s))), level))
            } else if s.type_is("array") {
                if s.items.is_some() {
                    if level == 255 {
                        fail(Issue::TooDeep, stack, key)
                    } else {
                        match array_recurse_for_type(s, stack, key, level + 1, cfg) {
                            Ok((element, depth)) => Ok((TypeRef::list_of(element), depth)),
                            Err(e) => Err(e),
                        }
                    }
                } else if cfg.relaxed {
                    Ok((TypeRef::map_of(TypeRef::opaque()), level))
                } else {
                    fail(Issue::EmptyInnerArray, stack, key)
                }
            } else if s.type_is_empty() {
                if s.x_kubernetes_int_or_string.is_some() {
                    Ok((TypeRef::list_of(TypeRef::well_known(WellKnown::IntOrString)), level))
                } else {
                    fail(Issue::UntypedItems, stack, key)
                }
            } else {
                fail(Issue::UnsupportedItems, stack, key)
            }
        },
    }
}

/// The type names that analysis tells apart are different texts.
pub proof fn type_names_differ()
    ensures
        "array"@ != "object"@,
        "array"@ != "string"@,
        "array"@ != "boolean"@,
        "array"@ != "date"@,
        "array"@ != "number"@,
        "array"@ != "integer"@,
        "array"@.len() == 5,
        "object"@ != "string"@,
        "object"@ != "boolean"@,
        "object"@ != "date"@,
        "object"@ != "number"@,
        "object"@ != "integer"@,
        "object"@.len() == 6,
        "string"@.len() == 6,
{
    reveal_strlit("array");
    reveal_strlit("object");
    reveal_strlit("string");
    reveal_strlit("boolean");
    reveal_strlit("date");
    reveal_strlit("number");
    reveal_strlit("integer");
    assert("array"@[0] == 'a');
    assert("object"@[0] == 'o');
    assert("string"@[0] == 's');
    assert("boolean"@[0] == 'b');
    assert("date"@[0] == 'd');
    assert("number"@[0] == 'n');
    assert("integer"@[0] == 'i');
}

/// The type that analysis infers for a property, and its array level.
fn member_type_of(value: &SchemaNode, stack: &str, key: &str, cfg: &Config) -> (r: Result<
    (TypeRef, Option<u8>),
    AnalysisError,
>)
    ensures
        match r {
            Ok((t, noted)) => member_type(*value, stack@, key@, *cfg) == Ok::<TypeShape, Failure>(t@)
                && level_agrees(noted, inferred_level(*value, stack@, key@, *cfg)),
            Err(e) => member_type(*value, stack@, key@, *cfg) == Err::<TypeShape, Failure>(e@),
        },
{
    proof {
        type_names_differ();
    }
    if value.type_is("object") {
        match extract_object_type(value, stack, key, cfg) {
            Ok(t) => Ok((t, None)),
            Err(e) => Err(e),
        }
    } else if value.type_is("string") {
        if value.enum_.is_some() {
            Ok((TypeRef::reference(nested_name_of(stack, key)), None))
        } else {
            Ok((TypeRef::primitive(Primitive::String), None))
        }
    } else if value.type_is("boolean") {
        Ok((TypeRef::primitive(Primitive::Bool), None))
    } else if value.type_is("date") {
        match extract_date_type(value) {
            Ok(p) => Ok((TypeRef::primitive(p), None)),
            Err(issue) => fail(issue, stack, key),
        }
    } else if value.type_is("number") {
        Ok((TypeRef::primitive(extract_number_type(value)), None))
    } else if value.type_is("integer") {
        Ok((TypeRef::primitive(extract_integer_type(value)), None))
    } else if value.type_is("array") {
        match array_recurse_for_type(value, stack, key, 1, cfg) {
            Err(e) => Err(e),
            Ok((inferred, depth)) => {
                if !cfg.no_condition && is_conditions(value) {
                    Ok((TypeRef::list_of(TypeRef::well_known(WellKnown::Condition)), None))
                } else if !cfg.no_object_reference && is_object_ref_list(value) {
                    Ok((TypeRef::list_of(TypeRef::well_known(WellKnown::ObjectReference)), None))
                } else {
                    Ok((inferred, Some(depth)))
                }
            },
        }
    } else if value.type_is_empty() {
        if value.x_kubernetes_int_or_string.is_some() {
            Ok((TypeRef::well_known(WellKnown::IntOrString), None))
        } else if keeps_unknown_fields(value) || has_typed_alternatives(value) {
            Ok((TypeRef::opaque(), None))
        } else if cfg.relaxed {
            Ok((TypeRef::map_of(TypeRef::opaque()), None))
        } else {
            fail(Issue::UntypedValue, stack, key)
        }
    } else {
        fail(Issue::UnknownType, stack, key)
    }
}


/// The serde annotations of a member that may be absent.
pub open spec fn optional_annotations() -> Seq<Seq<char>> {
    seq!["default"@, "skip_serializing_if = \"Option::is_none\""@]
}

/// The names that a node requires.
pub open spec fn required_of(node: SchemaNode) -> Seq<String> {
    match node.required {
        Some(list) => list@,
        None => Seq::empty(),
    }
}

/// The type of a property before it is made optional: what the first
/// override rule that fits says, else what analysis infers. None where the
/// property is left out.
pub open spec fn settled_type(prop: Property, stack: Seq<char>, cfg: Config) -> Result<
    Option<TypeShape>,
    Failure,
> {
    match cfg.overrides.action_for(prop.name@, prop.schema) {
        Some(PropertyAction::Omit) => Ok(None),
        Some(PropertyAction::Replace(name)) => Ok(Some(TypeShape::Reference(name@))),
        None => match member_type(prop.schema, stack, prop.name@, cfg) {
            Ok(t) => Ok(Some(t)),
            Err(e) => Err(e),
        },
    }
}

/// The type of a member: as settled where the property is required, else
/// optional.
pub open spec fn wrapped_type(t: TypeShape, required: bool) -> TypeShape {
    if required {
        t
    } else {
        TypeShape::Optional(Box::new(t))
    }
}

/// The member for a property of the given type.
pub open spec fn member_of(
    key: Seq<char>,
    t: TypeShape,
    required: bool,
    docs: Option<String>,
    map: MapType,
) -> MemberView {
    MemberView {
        name: key,
        type_: rendered(wrapped_type(t, required), map),
        serde_annot: if required {
            Seq::empty()
        } else {
            optional_annotations()
        },
        extra_annot: Seq::empty(),
        docs: opt_text(docs),
    }
}

/// The member for a property, none where it is left out.
pub open spec fn member_for(prop: Property, stack: Seq<char>, required: Seq<String>, cfg: Config) -> Result<
    Option<MemberView>,
    Failure,
> {
    match settled_type(prop, stack, cfg) {
        Err(e) => Err(e),
        Ok(None) => Ok(None),
        Ok(Some(t)) => Ok(
            Some(
                member_of(
                    prop.name@,
                    t,
                    text_in(prop.name@, required),
                    prop.schema.description,
                    cfg.map,
                ),
            ),
        ),
    }
}

/// The members for the first `n` properties, in order; the failure of the
/// first property that fails.
pub open spec fn members_upto(
    props: Seq<Property>,
    n: int,
    stack: Seq<char>,
    required: Seq<String>,
    cfg: Config,
) -> Result<Seq<MemberView>, Failure>
    decreases n,
{
    if n <= 0 {
        Ok(Seq::empty())
    } else {
        match members_upto(props, n - 1, stack, required, cfg) {
            Err(e) => Err(e),
            Ok(members) => match member_for(props[n - 1], stack, required, cfg) {
                Err(e) => Err(e),
                Ok(None) => Ok(members),
                Ok(Some(m)) => Ok(members.push(m)),
            },
        }
    }
}

/// The struct definition named `name` for the given properties. `holder` is
/// the node that holds the properties and says which of them are required;
/// `owner` is the node that describes the definition.
pub open spec fn struct_for(
    props: Seq<Property>,
    name: Seq<char>,
    level: u8,
    holder: SchemaNode,
    owner: SchemaNode,
    cfg: Config,
) -> Result<ContainerView, Failure> {
    match members_upto(props, props.len() as int, name, required_of(holder), cfg) {
        Err(e) => Err(e),
        Ok(members) => Ok(
            ContainerView {
                name,
                level,
                members,
                docs: opt_text(owner.description),
                is_enum: false,
            },
        ),
    }
}

/// How many arrays stand inside each other in an array whose elements are
/// searched for definitions: none where the value is no array, does not
/// resolve, or is a list of conditions or of object references.
pub open spec fn inferred_level(value: SchemaNode, stack: Seq<char>, key: Seq<char>, cfg: Config) -> Option<
    nat,
> {
    if type_of(value) == "array"@ {
        match array_type(value, stack, key, 1, cfg) {
            Ok((_, depth)) => if (!cfg.no_condition && has_condition_shape(value)) || (
            !cfg.no_object_reference && lists_reference_shapes(value)) {
                None
            } else {
                Some(depth)
            },
            Err(_) => None,
        }
    } else {
        None
    }
}

/// The array level of a property: as inferred, none where an override rule
/// settles the property.
pub open spec fn array_level(prop: Property, stack: Seq<char>, cfg: Config) -> Option<nat> {
    if cfg.overrides.action_for(prop.name@, prop.schema) is None {
        inferred_level(prop.schema, stack, prop.name@, cfg)
    } else {
        None
    }
}

/// The level that was noted is the array level.
pub open spec fn level_agrees(noted: Option<u8>, level: Option<nat>) -> bool {
    match (noted, level) {
        (Some(a), Some(b)) => a == b,
        (None, None) => true,
        _ => false,
    }
}

/// The name of the variant for an enum value: a string as it stands, a
/// non-negative integer in decimal.
pub open spec fn variant_name(value: JsonValue) -> Result<Seq<char>, Issue> {
    match value {
        JsonValue::String(s) => Ok(s@),
        JsonValue::Number(JsonNumber::PosInt(n)) => Ok(decimal_digits(n as nat)),
        JsonValue::Number(_) => Err(Issue::SignedOrFloatVariant),
        _ => Err(Issue::UnsupportedVariant),
    }
}

/// The variant of the given name.
pub open spec fn variant_of(name: Seq<char>) -> MemberView {
    MemberView {
        name,
        type_: Seq::empty(),
        serde_annot: Seq::empty(),
        extra_annot: Seq::empty(),
        docs: None,
    }
}

/// The variants for the first `n` enum values, in order; the issue with the
/// first value that has one.
pub open spec fn variants_upto(values: Seq<JsonValue>, n: int) -> Result<Seq<MemberView>, Issue>
    decreases n,
{
    if n <= 0 {
        Ok(Seq::empty())
    } else {
        match variants_upto(values, n - 1) {
            Err(issue) => Err(issue),
            Ok(members) => match variant_name(values[n - 1]) {
                Err(issue) => Err(issue),
                Ok(name) => Ok(members.push(variant_of(name))),
            },
        }
    }
}

/// One of the first `n` values is a string.
pub open spec fn some_text(values: Seq<JsonValue>, n: int) -> bool {
    exists|i: int| 0 <= i < n && (#[trigger] values[i]) is String
}

/// One of the first `n` values is a number.
pub open spec fn some_number(values: Seq<JsonValue>, n: int) -> bool {
    exists|i: int| 0 <= i < n && (#[trigger] values[i]) is Number
}

/// The enum definition named `name` for the given values, found at the
/// property `key` of the definition `stack`. `owner` is the node that holds
/// the property.
pub open spec fn enum_for(
    values: Seq<JsonValue>,
    name: Seq<char>,
    level: u8,
    owner: SchemaNode,
    stack: Seq<char>,
    key: Seq<char>,
) -> Result<ContainerView, Failure> {
    match variants_upto(values, values.len() as int) {
        Err(issue) => Err(failure(issue, stack, key)),
        Ok(members) => if some_text(values, values.len() as int) && some_number(
            values,
            values.len() as int,
        ) {
            Err(failure(Issue::MixedVariants, stack, key))
        } else {
            Ok(
                ContainerView {
                    name,
                    level,
                    members,
                    docs: opt_text(owner.description),
                    is_enum: true,
                },
            )
        },
    }
}

/// The keys of the root that belong to every resource and are not searched.
pub open spec fn is_ignored_key(key: Seq<char>) -> bool {
    key == "metadata"@ || key == "apiVersion"@ || key == "kind"@
}

/// The definitions found in a node, in the order of the walk: the struct
/// for the node itself, where it has one, and then what is found under its
/// properties. `stack` is the path down to the node and `level` its depth.
pub open spec fn found_in_node(schema: SchemaNode, stack: Seq<char>, level: u8, cfg: Config) -> Result<
    Seq<ContainerView>,
    Failure,
>
    decreases schema, 2nat,
{
    let name = upper_camel(stack);
    if type_of(schema) == "object"@ {
        match schema.additional_properties {
            Some(SchemaOrBool::Schema(s)) => match s.properties {
                Some(extra) => match struct_for(extra@, name, level, *s, schema, cfg) {
                    Err(e) => Err(e),
                    Ok(c) => match found_upto(
                        extra@,
                        extra.len() as int,
                        name,
                        level,
                        schema,
                        cfg,
                        true,
                    ) {
                        Err(e) => Err(e),
                        Ok(more) => Ok(seq![c] + more),
                    },
                },
                None => if type_of(*s) == "object"@ {
                    found_in_node(*s, name, level, cfg)
                } else {
                    Ok(Seq::empty())
                },
            },
            _ => match schema.properties {
                Some(props) => if props.len() == 0 && schema.x_kubernetes_preserve_unknown_fields
                    == Some(true) {
                    Ok(Seq::empty())
                } else {
                    match struct_for(props@, name, level, schema, schema, cfg) {
                        Err(e) => Err(e),
                        Ok(c) => match found_upto(
                            props@,
                            props.len() as int,
                            name,
                            level,
                            schema,
                            cfg,
                            true,
                        ) {
                            Err(e) => Err(e),
                            Ok(more) => Ok(seq![c] + more),
                        },
                    }
                },
                None => if schema.x_kubernetes_preserve_unknown_fields == Some(true) {
                    Ok(Seq::empty())
                } else {
                    match struct_for(Seq::empty(), name, level, schema, schema, cfg) {
                        Err(e) => Err(e),
                        Ok(c) => Ok(seq![c]),
                    }
                },
            },
        }
    } else {
        match schema.additional_properties {
            Some(SchemaOrBool::Schema(s)) => match s.properties {
                Some(extra) => found_upto(
                    extra@,
                    extra.len() as int,
                    name,
                    level,
                    schema,
                    cfg,
                    false,
                ),
                None => Ok(Seq::empty()),
            },
            _ => match schema.properties {
                Some(props) => found_upto(
                    props@,
                    props.len() as int,
                    name,
                    level,
                    schema,
                    cfg,
                    false,
                ),
                None => Ok(Seq::empty()),
            },
        }
    }
}

/// The definitions found under the first `n` properties, in order; the
/// failure of the first property that fails. `extracted` tells whether the
/// properties became the members of a definition.
pub open spec fn found_upto(
    props: Seq<Property>,
    n: int,
    stack: Seq<char>,
    level: u8,
    owner: SchemaNode,
    cfg: Config,
    extracted: bool,
) -> Result<Seq<ContainerView>, Failure>
    decreases props, 1nat, n,
{
    if n <= 0 || n > props.len() {
        Ok(Seq::empty())
    } else {
        match found_upto(props, n - 1, stack, level, owner, cfg, extracted) {
            Err(e) => Err(e),
            Ok(before) => match found_under(props[n - 1], stack, level, owner, cfg, extracted) {
                Err(e) => Err(e),
                Ok(more) => Ok(before + more),
            },
        }
    }
}

/// The definitions found under one property of the definition `stack`:
/// nothing for the ignored keys of the root and for a property that an
/// override rule settles; what is found in the node for an object that is
/// not read as an object reference; what is found in the element for an
/// array with a level; the enum for a scalar with enum values.
pub open spec fn found_under(
    prop: Property,
    stack: Seq<char>,
    level: u8,
    owner: SchemaNode,
    cfg: Config,
    extracted: bool,
) -> Result<Seq<ContainerView>, Failure>
    decreases prop, 0nat,
{
    let key = prop.name@;
    let t = type_of(prop.schema);
    let below = nested_name(stack, key);
    if level == 0 && is_ignored_key(key) {
        Ok(Seq::empty())
    } else if cfg.overrides.action_for(key, prop.schema) is Some {
        Ok(Seq::empty())
    } else if t == "object"@ {
        if reads_as_object_ref(prop.schema, cfg) {
            Ok(Seq::empty())
        } else if level == 255 {
            Err(failure(Issue::TooDeep, stack, key))
        } else {
            match prop.schema.additional_properties {
                Some(SchemaOrBool::Schema(s)) => if type_of(*s) == "array"@ {
                    match s.items {
                        Some(SchemaOrArray::Schema(element)) => found_in_node(
                            *element,
                            below,
                            (level + 1) as u8,
                            cfg,
                        ),
                        _ => found_in_node(prop.schema, below, (level + 1) as u8, cfg),
                    }
                } else {
                    found_in_node(prop.schema, below, (level + 1) as u8, cfg)
                },
                _ => found_in_node(prop.schema, below, (level + 1) as u8, cfg),
            }
        }
    } else if t == "array"@ {
        if extracted {
            match array_level(prop, stack, cfg) {
                None => Ok(Seq::empty()),
                Some(depth) => if level == 255 {
                    Err(failure(Issue::TooDeep, stack, key))
                } else {
                    found_in_element(prop.schema, depth, below, (level + 1) as u8, stack, key, cfg)
                },
            }
        } else {
            Ok(Seq::empty())
        }
    } else if t.len() == 0 {
        Ok(Seq::empty())
    } else {
        match prop.schema.enum_ {
            Some(values) => match enum_for(values@, below, level, owner, stack, key) {
                Ok(c) => Ok(seq![c]),
                Err(e) => Err(e),
            },
            None => Ok(Seq::empty()),
        }
    }
}

/// The definitions found in the element that stands `depth` arrays below
/// `value`.
pub open spec fn found_in_element(
    value: SchemaNode,
    depth: nat,
    below: Seq<char>,
    level: u8,
    stack: Seq<char>,
    key: Seq<char>,
    cfg: Config,
) -> Result<Seq<ContainerView>, Failure>
    decreases value, 3nat,
{
    if depth == 0 {
        found_in_node(value, below, level, cfg)
    } else {
        match value.items {
            Some(SchemaOrArray::Schema(s)) => found_in_element(
                *s,
                (depth - 1) as nat,
                below,
                level,
                stack,
                key,
                cfg,
            ),
            Some(SchemaOrArray::Schemas(_)) => Err(failure(Issue::TupleItems, stack, key)),
            None => Err(failure(Issue::MissingItems, stack, key)),
        }
    }
}

/// The catalog for a schema: the definitions found in the root, named
/// `kind`, each name once, the first that was found.
pub open spec fn analysis(schema: SchemaNode, kind: Seq<char>, cfg: Config) -> Result<
    Seq<ContainerView>,
    Failure,
> {
    match found_in_node(schema, kind, 0, cfg) {
        Ok(found) => Ok(catalog_extend(Seq::empty(), found)),
        Err(e) => Err(e),
    }
}


impl Default for Config {
    fn default() -> (cfg: Config)
        ensures
            !cfg.no_condition,
            !cfg.no_object_reference,
            cfg.map == MapType::BTreeMap,
            !cfg.relaxed,
            forall|name: Seq<char>, schema: SchemaNode|
                cfg.overrides.action_for(name, schema) is None,
    {
        Config {
            no_condition: false,
            no_object_reference: false,
            map: MapType::BTreeMap,
            relaxed: false,
            overrides: Overrides::empty(),
        }
    }
}

/// Once a property fails, the members of every longer run of properties
/// fail in the same way.
pub proof fn members_failure_stays(
    props: Seq<Property>,
    k: int,
    n: int,
    stack: Seq<char>,
    required: Seq<String>,
    cfg: Config,
)
    requires
        members_upto(props, k, stack, required, cfg) is Err,
        k <= n,
    ensures
        members_upto(props, n, stack, required, cfg) == members_upto(props, k, stack, required, cfg),
    decreases n - k,
{
    if k < n {
        members_failure_stays(props, k, n - 1, stack, required, cfg);
    }
}

/// Once an enum value has an issue, every longer run of values has it.
pub proof fn variants_issue_stays(values: Seq<JsonValue>, k: int, n: int)
    requires
        variants_upto(values, k) is Err,
        k <= n,
    ensures
        variants_upto(values, n) == variants_upto(values, k),
    decreases n - k,
{
    if k < n {
        variants_issue_stays(values, k, n - 1);
    }
}

/// Once the search under a property fails, the search under every longer
/// run of properties fails in the same way.
pub proof fn search_failure_stays(
    props: Seq<Property>,
    k: int,
    n: int,
    stack: Seq<char>,
    level: u8,
    owner: SchemaNode,
    cfg: Config,
    extracted: bool,
)
    requires
        found_upto(props, k, stack, level, owner, cfg, extracted) is Err,
        k <= n <= props.len(),
    ensures
        found_upto(props, n, stack, level, owner, cfg, extracted) == found_upto(
            props,
            k,
            stack,
            level,
            owner,
            cfg,
            extracted,
        ),
    decreases n - k,
{
    if k < n {
        search_failure_stays(props, k, n - 1, stack, level, owner, cfg, extracted);
    }
}

/// A copy of an optional text.
fn copy_text(text: &Option<String>) -> (r: Option<String>)
    ensures
        opt_text(r) == opt_text(*text),
{
    match text {
        Some(t) => Some(t.clone()),
        None => None,
    }
}

/// Whether the node requires the key.
fn is_required(owner: &SchemaNode, key: &str) -> (r: bool)
    ensures
        r == text_in(key@, required_of(*owner)),
{
    match &owner.required {
        Some(list) => str_is_in(key, list),
        None => false,
    }
}

/// The member for a property of the given type.
fn make_member(key: &str, t: TypeRef, required: bool, docs: &Option<String>, map: MapType) -> (m:
    Member)
    ensures
        m@ == member_of(key@, t@, required, *docs, map),
{
    if required {
        let m = Member {
            name: String::from_str(key),
            type_: t.render(map),
            serde_annot: Vec::new(),
            extra_annot: Vec::new(),
            docs: copy_text(docs),
        };
        assert(m@.serde_annot =~= Seq::empty());
        assert(m@.extra_annot =~= Seq::empty());
        m
    } else {
        let mut annotations: Vec<String> = Vec::new();
        annotations.push(String::from_str("default"));
        annotations.push(String::from_str("skip_serializing_if = \"Option::is_none\""));
        let m = Member {
            name: String::from_str(key),
            type_: TypeRef::optional(t).render(map),
            serde_annot: annotations,
            extra_annot: Vec::new(),
            docs: copy_text(docs),
        };
        assert(m@.serde_annot =~= optional_annotations());
        assert(m@.extra_annot =~= Seq::empty());
        m
    }
}

/// The struct definition named `stack` for the given properties, and the
/// array level of each property. `holder` is the node that holds the
/// properties and says which of them are required; `schema` is the node that
/// describes the definition.
pub fn extract_container(
    props: &Vec<Property>,
    stack: &str,
    level: u8,
    holder: &SchemaNode,
    schema: &SchemaNode,
    cfg: &Config,
) -> (r: Result<(Container, Vec<Option<u8>>), AnalysisError>)
    ensures
        match r {
            Ok((c, levels)) => {
                &&& struct_for(props@, stack@, level, *holder, *schema, *cfg) == Ok::<ContainerView, Failure>(
                    c@,
                )
                &&& levels.len() == props.len()
                &&& forall|i: int|
                    0 <= i < props.len() ==> level_agrees(
                        #[trigger] levels@[i],
                        array_level(props@[i], stack@, *cfg),
                    )
            },
            Err(e) => struct_for(props@, stack@, level, *holder, *schema, *cfg) == Err::<
                ContainerView,
                Failure,
            >(e@),
        },
{
    let mut members: Vec<Member> = Vec::new();
    let mut levels: Vec<Option<u8>> = Vec::new();
    let ghost required = required_of(*holder);
    let mut i: usize = 0;
    assert(member_views(members@) =~= Seq::empty());
    while i < props.len()
        invariant
            i <= props.len(),
            required == required_of(*holder),
            members_upto(props@, i as int, stack@, required, *cfg) == Ok::<Seq<MemberView>, Failure>(
                member_views(members@),
            ),
            levels.len() == i,
            forall|k: int|
                0 <= k < i ==> level_agrees(
                    #[trigger] levels@[k],
                    array_level(props@[k], stack@, *cfg),
                ),
        decreases props.len() - i,
    {
        let prop = &props[i];
        let key = prop.name.as_str();
        let ghost before = member_views(members@);
        match cfg.overrides.get_property_action(key, &prop.schema) {
            Some(PropertyAction::Omit) => {
                levels.push(None);
            },
            Some(PropertyAction::Replace(name)) => {
                let t = TypeRef::reference(name.clone());
                let m = make_member(
                    key,
                    t,
                    is_required(holder, key),
                    &prop.schema.description,
                    cfg.map,
                );
                members.push(m);
                levels.push(None);
                assert(member_views(members@) =~= before.push(m@));
            },
            None => {
                match member_type_of(&prop.schema, stack, key, cfg) {
                    Err(e) => {
                        proof {
                            assert(members_upto(props@, i + 1, stack@, required, *cfg) == Err::<
                                Seq<MemberView>,
                                Failure,
                            >(e@));
                            members_failure_stays(
                                props@,
                                i + 1,
                                props.len() as int,
                                stack@,
                                required,
                                *cfg,
                            );
                        }
                        return Err(e);
                    },
                    Ok((t, noted)) => {
                        let m = make_member(
                            key,
                            t,
                            is_required(holder, key),
                            &prop.schema.description,
                            cfg.map,
                        );
                        members.push(m);
                        levels.push(noted);
                        assert(member_views(members@) =~= before.push(m@));
                    },
                }
            },
        }
        i += 1;
    }
    let c = Container {
        name: String::from_str(stack),
        level,
        members,
        docs: copy_text(&schema.description),
        is_enum: false,
    };
    Ok((c, levels))
}

/// The name of the variant for an enum value.
fn variant_name_of(value: &JsonValue) -> (r: Result<String, Issue>)
    ensures
        match r {
            Ok(name) => variant_name(*value) == Ok::<Seq<char>, Issue>(name@),
            Err(issue) => variant_name(*value) == Err::<Seq<char>, Issue>(issue),
        },
{
    match value {
        JsonValue::String(s) => Ok(s.clone()),
        JsonValue::Number(JsonNumber::PosInt(n)) => Ok(decimal(*n)),
        JsonValue::Number(_) => Err(Issue::SignedOrFloatVariant),
        _ => Err(Issue::UnsupportedVariant),
    }
}

/// The enum definition named `name` for the given values, found at the
/// property `key` of the definition `stack`. `schema` is the node that holds
/// the property.
pub fn analyze_enum_properties(
    items: &Vec<JsonValue>,
    name: &str,
    level: u8,
    schema: &SchemaNode,
    stack: &str,
    key: &str,
) -> (r: Result<Container, AnalysisError>)
    ensures
        match r {
            Ok(c) => enum_for(items@, name@, level, *schema, stack@, key@) == Ok::<
                ContainerView,
                Failure,
            >(c@),
            Err(e) => enum_for(items@, name@, level, *schema, stack@, key@) == Err::<
                ContainerView,
                Failure,
            >(e@),
        },
{
    let mut members: Vec<Member> = Vec::new();
    let mut seen_text = false;
    let mut seen_number = false;
    let mut i: usize = 0;
    assert(member_views(members@) =~= Seq::empty());
    while i < items.len()
        invariant
            i <= items.len(),
            variants_upto(items@, i as int) == Ok::<Seq<MemberView>, Issue>(member_views(members@)),
            seen_text == some_text(items@, i as int),
            seen_number == some_number(items@, i as int),
        decreases items.len() - i,
    {
        let ghost before = member_views(members@);
        match variant_name_of(&items[i]) {
            Err(issue) => {
                proof {
                    assert(variants_upto(items@, i + 1) == Err::<Seq<MemberView>, Issue>(issue));
                    variants_issue_stays(items@, i + 1, items.len() as int);
                }
                return fail(issue, stack, key);
            },
            Ok(variant) => {
                match &items[i] {
                    JsonValue::String(_) => {
                        seen_text = true;
                    },
                    JsonValue::Number(_) => {
                        seen_number = true;
                    },
                    _ => {},
                }
                let m = Member {
                    name: variant,
                    type_: String::new(),
                    serde_annot: Vec::new(),
                    extra_annot: Vec::new(),
                    docs: None,
                };
                assert(m@.serde_annot =~= Seq::empty());
                assert(m@.extra_annot =~= Seq::empty());
                members.push(m);
                assert(member_views(members@) =~= before.push(m@));
                assert(items@[i as int] is String ==> some_text(items@, i + 1));
                assert(items@[i as int] is Number ==> some_number(items@, i + 1));
            },
        }
        i += 1;
    }
    if seen_text && seen_number {
        return fail(Issue::MixedVariants, stack, key);
    }
    Ok(
        Container {
            name: String::from_str(name),
            level,
            members,
            docs: copy_text(&schema.description),
            is_enum: true,
        },
    )
}

/// The search of a node added to the catalog what the node holds, or
/// failed as the node does.
pub open spec fn search_agrees(
    r: Result<(), AnalysisError>,
    expected: Result<Seq<ContainerView>, Failure>,
    before: Seq<ContainerView>,
    after: Seq<ContainerView>,
) -> bool {
    match r {
        Ok(_) => expected is Ok && after == catalog_extend(before, expected->Ok_0),
        Err(e) => expected == Err::<Seq<ContainerView>, Failure>(e@),
    }
}

/// Whether the key belongs to every resource and is not searched at the
/// root.
fn is_ignored(key: &str) -> (r: bool)
    ensures
        r == is_ignored_key(key@),
{
    str_eq(key, "metadata") || str_eq(key, "apiVersion") || str_eq(key, "kind")
}

/// Searches a node for definitions and offers each to the catalog: the
/// struct for the node itself, where it has one, and then what is found
/// under its properties.
fn analyze_(schema: &SchemaNode, stack: &str, level: u8, results: &mut Output, cfg: &Config) -> (r:
    Result<(), AnalysisError>)
    ensures
        search_agrees(
            r,
            found_in_node(*schema, stack@, level, *cfg),
            old(results)@,
            final(results)@,
        ),
    decreases schema, 2nat,
{
    let name = to_upper_camel(stack);
    let ghost start = results@;
    if schema.type_is("object") {
        match &schema.additional_properties {
            Some(SchemaOrBool::Schema(s)) => match &s.properties {
                Some(extra) => {
                    match extract_container(extra, name.as_str(), level, s, schema, cfg) {
                        Err(e) => Err(e),
                        Ok((c, levels)) => {
                            let ghost cv = c@;
                            results.insert(c);
                            let r = find_containers(
                                extra,
                                name.as_str(),
                                level,
                                schema,
                                cfg,
                                Some(&levels),
                                results,
                            );
                            proof {
                                catalog_extend_one(start, cv);
                                if r is Ok {
                                    let more = found_upto(
                                        extra@,
                                        extra.len() as int,
                                        name@,
                                        level,
                                        *schema,
                                        *cfg,
                                        true,
                                    )->Ok_0;
                                    catalog_extend_concat(start, seq![cv], more);
                                }
                            }
                            r
                        },
                    }
                },
                None => {
                    if s.type_is("object") {
                        analyze_(s, name.as_str(), level, results, cfg)
                    } else {
                        Ok(())
                    }
                },
            },
            _ => match &schema.properties {
                Some(props) => {
                    if props.len() == 0 && keeps_unknown_fields(schema) {
                        Ok(())
                    } else {
                        match extract_container(props, name.as_str(), level, schema, schema, cfg) {
                            Err(e) => Err(e),
                            Ok((c, levels)) => {
                                let ghost cv = c@;
                                results.insert(c);
                                let r = find_containers(
                                    props,
                                    name.as_str(),
                                    level,
                                    schema,
                                    cfg,
                                    Some(&levels),
                                    results,
                                );
                                proof {
                                    catalog_extend_one(start, cv);
                                    if r is Ok {
                                        let more = found_upto(
                                            props@,
                                            props.len() as int,
                                            name@,
                                            level,
                                            *schema,
                                            *cfg,
                                            true,
                                        )->Ok_0;
                                        catalog_extend_concat(start, seq![cv], more);
                                    }
                                }
                                r
                            },
                        }
                    }
                },
                None => {
                    if keeps_unknown_fields(schema) {
                        Ok(())
                    } else {
                        let none: Vec<Property> = Vec::new();
                        match extract_container(&none, name.as_str(), level, schema, schema, cfg) {
                            Err(e) => Err(e),
                            Ok((c, _)) => {
                                proof {
                                    catalog_extend_one(start, c@);
                                }
                                results.insert(c);
                                Ok(())
                            },
                        }
                    }
                },
            },
        }
    } else {
        match &schema.additional_properties {
            Some(SchemaOrBool::Schema(s)) => match &s.properties {
                Some(extra) => find_containers(
                    extra,
                    name.as_str(),
                    level,
                    schema,
                    cfg,
                    None,
                    results,
                ),
                None => Ok(()),
            },
            _ => match &schema.properties {
                Some(props) => find_containers(
                    props,
                    name.as_str(),
                    level,
                    schema,
                    cfg,
                    None,
                    results,
                ),
                None => Ok(()),
            },
        }
    }
}

/// Searches the properties of the definition `stack` for further
/// definitions, in order, and offers each to the catalog. `levels` holds the
/// array level of each property where the properties became the members of a
/// definition.
fn find_containers(
    props: &Vec<Property>,
    stack: &str,
    level: u8,
    schema: &SchemaNode,
    cfg: &Config,
    levels: Option<&Vec<Option<u8>>>,
    results: &mut Output,
) -> (r: Result<(), AnalysisError>)
    requires
        levels matches Some(noted) ==> noted.len() == props.len() && forall|i: int|
            0 <= i < props.len() ==> level_agrees(
                #[trigger] noted@[i],
                array_level(props@[i], stack@, *cfg),
            ),
    ensures
        search_agrees(
            r,
            found_upto(props@, props.len() as int, stack@, level, *schema, *cfg, levels is Some),
            old(results)@,
            final(results)@,
        ),
    decreases props, 1nat,
{
    let ghost start = results@;
    let ghost extracted = levels is Some;
    let mut i: usize = 0;
    while i < props.len()
        invariant
            i <= props.len(),
            extracted == (levels is Some),
            levels matches Some(noted) ==> noted.len() == props.len() && forall|k: int|
                0 <= k < props.len() ==> level_agrees(
                    #[trigger] noted@[k],
                    array_level(props@[k], stack@, *cfg),
                ),
            found_upto(props@, i as int, stack@, level, *schema, *cfg, extracted) is Ok,
            results@ == catalog_extend(
                start,
                found_upto(props@, i as int, stack@, level, *schema, *cfg, extracted)->Ok_0,
            ),
        decreases props.len() - i,
    {
        let noted = match levels {
            Some(list) => list[i],
            None => None,
        };
        let ghost before = results@;
        let ghost found = found_upto(props@, i as int, stack@, level, *schema, *cfg, extracted)->Ok_0;
        match find_under(&props[i], stack, level, schema, cfg, extracted_flag(levels), noted, results) {
            Err(e) => {
                proof {
                    assert(found_upto(props@, i + 1, stack@, level, *schema, *cfg, extracted)
                        == Err::<Seq<ContainerView>, Failure>(e@));
                    search_failure_stays(
                        props@,
                        i + 1,
                        props.len() as int,
                        stack@,
                        level,
                        *schema,
                        *cfg,
                        extracted,
                    );
                }
                return Err(e);
            },
            Ok(_) => {
                proof {
                    let more = found_under(props@[i as int], stack@, level, *schema, *cfg, extracted)->Ok_0;
                    catalog_extend_concat(start, found, more);
                }
            },
        }
        i += 1;
    }
    Ok(())
}

/// Whether array levels were noted.
fn extracted_flag(levels: Option<&Vec<Option<u8>>>) -> (r: bool)
    ensures
        r == (levels is Some),
{
    levels.is_some()
}

/// Searches one property of the definition `stack`. `noted` is the array
/// level of the property where the properties became members.
fn find_under(
    prop: &Property,
    stack: &str,
    level: u8,
    schema: &SchemaNode,
    cfg: &Config,
    extracted: bool,
    noted: Option<u8>,
    results: &mut Output,
) -> (r: Result<(), AnalysisError>)
    requires
        extracted ==> level_agrees(noted, array_level(*prop, stack@, *cfg)),
    ensures
        search_agrees(
            r,
            found_under(*prop, stack@, level, *schema, *cfg, extracted),
            old(results)@,
            final(results)@,
        ),
    decreases prop, 0nat,
{
    let key = prop.name.as_str();
    let value = &prop.schema;
    if level == 0 && is_ignored(key) {
        return Ok(());
    }
    if cfg.overrides.get_property_action(key, value).is_some() {
        return Ok(());
    }
    let below = nested_name_of(stack, key);
    if value.type_is("object") {
        if is_read_as_object_ref(value, cfg) {
            Ok(())
        } else if level == 255 {
            fail(Issue::TooDeep, stack, key)
        } else {
            match &value.additional_properties {
                Some(SchemaOrBool::Schema(s)) => {
                    if s.type_is("array") {
                        match &s.items {
                            Some(SchemaOrArray::Schema(element)) => analyze_(
                                element,
                                below.as_str(),
                                level + 1,
                                results,
                                cfg,
                            ),
                            _ => analyze_(value, below.as_str(), level + 1, results, cfg),
                        }
                    } else {
                        analyze_(value, below.as_str(), level + 1, results, cfg)
                    }
                },
                _ => analyze_(value, below.as_str(), level + 1, results, cfg),
            }
        }
    } else if value.type_is("array") {
        if extracted {
            match noted {
                None => Ok(()),
                Some(depth) => {
                    if level == 255 {
                        fail(Issue::TooDeep, stack, key)
                    } else {
                        analyze_element(
                            value,
                            depth,
                            below.as_str(),
                            level + 1,
                            stack,
                            key,
                            results,
                            cfg,
                        )
                    }
                },
            }
        } else {
            Ok(())
        }
    } else if value.type_is_empty() {
        Ok(())
    } else {
        match &value.enum_ {
            Some(values) => {
                match analyze_enum_properties(values, below.as_str(), level, schema, stack, key) {
                    Ok(c) => {
                        proof {
                            catalog_extend_one(results@, c@);
                        }
                        results.insert(c);
                        Ok(())
                    },
                    Err(e) => Err(e),
                }
            },
            None => Ok(()),
        }
    }
}

/// Searches the element that stands `depth` arrays below `value`.
fn analyze_element(
    value: &SchemaNode,
    depth: u8,
    below: &str,
    level: u8,
    stack: &str,
    key: &str,
    results: &mut Output,
    cfg: &Config,
) -> (r: Result<(), AnalysisError>)
    ensures
        search_agrees(
            r,
            found_in_element(*value, depth as nat, below@, level, stack@, key@, *cfg),
            old(results)@,
            final(results)@,
        ),
    decreases value, 3nat,
{
    if depth == 0 {
        analyze_(value, below, level, results, cfg)
    } else {
        match &value.items {
            Some(SchemaOrArray::Schema(s)) => analyze_element(
                s,
                depth - 1,
                below,
                level,
                stack,
                key,
                results,
                cfg,
            ),
            Some(SchemaOrArray::Schemas(_)) => fail(Issue::TupleItems, stack, key),
            None => fail(Issue::MissingItems, stack, key),
        }
    }
}

/// Analyses a schema: finds every definition in it and returns them as a
/// catalog, the root definition named `kind` first. Fails as a whole with the
/// first construct that cannot be resolved.
pub fn analyze(schema: SchemaNode, kind: &str, cfg: Config) -> (r: Result<Output, AnalysisError>)
    ensures
        match r {
            Ok(out) => analysis(schema, kind@, cfg) == Ok::<Seq<ContainerView>, Failure>(out@),
            Err(e) => analysis(schema, kind@, cfg) == Err::<Seq<ContainerView>, Failure>(e@),
        },
{
    analyze_schema(&schema, kind, &cfg)
}

/// Analyses a schema that stays with the caller.
pub fn analyze_schema(schema: &SchemaNode, kind: &str, cfg: &Config) -> (r: Result<
    Output,
    AnalysisError,
>)
    ensures
        match r {
            Ok(out) => analysis(*schema, kind@, *cfg) == Ok::<Seq<ContainerView>, Failure>(out@),
            Err(e) => analysis(*schema, kind@, *cfg) == Err::<Seq<ContainerView>, Failure>(e@),
        },
{
    let mut results = Output::default();
    match analyze_(schema, kind, 0, &mut results, cfg) {
        Ok(_) => Ok(results),
        Err(e) => Err(e),
    }
}


/// The type that is settled for a property is never optional by itself:
/// only a property that is not required is made optional.
pub proof fn settled_type_is_not_optional(prop: Property, stack: Seq<char>, cfg: Config)
    requires
        settled_type(prop, stack, cfg) matches Ok(Some(_)),
    ensures
        settled_type(prop, stack, cfg)->Ok_0->Some_0 !is Optional,
{
    if cfg.overrides.action_for(prop.name@, prop.schema) is None {
        let value = prop.schema;
        let key = prop.name@;
        let t = type_of(value);
        type_names_differ();
        if t == "object"@ {
            object_type_is_not_optional(value, stack, key, cfg);
        } else if t == "array"@ {
            array_type_is_not_optional(value, stack, key, 1, cfg);
        }
    }
}

/// The type of an object is never optional.
pub proof fn object_type_is_not_optional(value: SchemaNode, stack: Seq<char>, key: Seq<char>, cfg: Config)
    requires
        object_type(value, stack, key, cfg) is Ok,
    ensures
        object_type(value, stack, key, cfg)->Ok_0 !is Optional,
{
}

/// The type of an array is never optional.
pub proof fn array_type_is_not_optional(
    value: SchemaNode,
    stack: Seq<char>,
    key: Seq<char>,
    level: nat,
    cfg: Config,
)
    requires
        array_type(value, stack, key, level, cfg) is Ok,
    ensures
        array_type(value, stack, key, level, cfg)->Ok_0.0 !is Optional,
{
}

/// The boundary between required and optional: a property that its holder
/// requires gets the type that is settled for it, unwrapped; any other
/// property gets that type made optional.
pub proof fn required_boundary(prop: Property, stack: Seq<char>, required: Seq<String>, cfg: Config)
    requires
        settled_type(prop, stack, cfg) matches Ok(Some(_)),
    ensures
        ({
            let t = settled_type(prop, stack, cfg)->Ok_0->Some_0;
            let listed = text_in(prop.name@, required);
            &&& member_for(prop, stack, required, cfg) matches Ok(Some(m))
            &&& listed ==> m.type_ == rendered(t, cfg.map) && m.serde_annot.len() == 0
            &&& !listed ==> m.type_ == rendered(TypeShape::Optional(Box::new(t)), cfg.map)
                && m.serde_annot == optional_annotations()
            &&& wrapped_type(t, listed) is Optional <==> !listed
        }),
{
    settled_type_is_not_optional(prop, stack, cfg);
}

/// Array nesting fidelity: where strict reading gives an array a type, the
/// type has one list layer for each array that stands between the property
/// and the element, and the element is no list.
pub proof fn list_layers_match_array_levels(
    value: SchemaNode,
    stack: Seq<char>,
    key: Seq<char>,
    level: nat,
    cfg: Config,
)
    requires
        array_type(value, stack, key, level, cfg) is Ok,
        !cfg.relaxed,
    ensures
        ({
            let (t, depth) = array_type(value, stack, key, level, cfg)->Ok_0;
            &&& depth >= level
            &&& crate::types::list_depth(t) == depth - level + 1
            &&& crate::types::list_element(t) !is List
        }),
    decreases value,
{
    type_names_differ();
    match value.items {
        Some(SchemaOrArray::Schema(s)) => {
            let t = type_of(*s);
            let (found, depth) = array_type(value, stack, key, level, cfg)->Ok_0;
            if s.type_ is None && s.x_kubernetes_preserve_unknown_fields == Some(true) {
                list_layer(TypeShape::Opaque);
            } else if t == "object"@ {
                let element = object_type(*s, stack, key, cfg)->Ok_0;
                assert(element !is List);
                list_layer(element);
            } else if t == "array"@ {
                list_layers_match_array_levels(*s, stack, key, level + 1, cfg);
                list_layer(array_type(*s, stack, key, level + 1, cfg)->Ok_0.0);
            } else {
                let element = *found->List_0;
                assert(element is Primitive || element is WellKnown);
                list_layer(element);
            }
        },
        _ => {},
    }
}

/// A list has one layer more than its element, and the same innermost
/// element.
pub proof fn list_layer(element: TypeShape)
    ensures
        crate::types::list_depth(TypeShape::List(Box::new(element))) == 1 + crate::types::list_depth(
            element,
        ),
        crate::types::list_element(TypeShape::List(Box::new(element))) == crate::types::list_element(
            element,
        ),
        element !is List ==> crate::types::list_depth(element) == 0 && crate::types::list_element(
            element,
        ) == element,
{
}

/// A property that an override rule omits is no member of the definition,
/// and nothing is searched for below it.
pub proof fn omitted_property_is_absent(
    prop: Property,
    stack: Seq<char>,
    required: Seq<String>,
    level: u8,
    owner: SchemaNode,
    cfg: Config,
    extracted: bool,
)
    requires
        cfg.overrides.action_for(prop.name@, prop.schema) == Some(PropertyAction::Omit),
    ensures
        member_for(prop, stack, required, cfg) == Ok::<Option<MemberView>, Failure>(None),
        found_under(prop, stack, level, owner, cfg, extracted) == Ok::<Seq<ContainerView>, Failure>(
            Seq::empty(),
        ),
{
}

/// A property that an override rule replaces gets the type of the rule as
/// it is written, and nothing is searched for below it.
pub proof fn replaced_property_is_taken_as_written(
    prop: Property,
    stack: Seq<char>,
    level: u8,
    owner: SchemaNode,
    cfg: Config,
    extracted: bool,
    name: String,
)
    requires
        cfg.overrides.action_for(prop.name@, prop.schema) == Some(PropertyAction::Replace(name)),
    ensures
        settled_type(prop, stack, cfg) == Ok::<Option<TypeShape>, Failure>(
            Some(TypeShape::Reference(name@)),
        ),
        found_under(prop, stack, level, owner, cfg, extracted) == Ok::<Seq<ContainerView>, Failure>(
            Seq::empty(),
        ),
{
}

/// An object that has the shape of an object reference, and is read as
/// one, is a member of that type, and no definition is generated for it.
pub proof fn object_reference_is_no_definition(
    prop: Property,
    stack: Seq<char>,
    level: u8,
    owner: SchemaNode,
    cfg: Config,
    extracted: bool,
)
    requires
        type_of(prop.schema) == "object"@,
        reads_as_object_ref(prop.schema, cfg),
        cfg.overrides.action_for(prop.name@, prop.schema) is None,
    ensures
        settled_type(prop, stack, cfg) == Ok::<Option<TypeShape>, Failure>(
            Some(TypeShape::WellKnown(WellKnown::ObjectReference)),
        ),
        found_under(prop, stack, level, owner, cfg, extracted) == Ok::<Seq<ContainerView>, Failure>(
            Seq::empty(),
        ),
{
    type_names_differ();
}

/// The key is one of the seven of an object reference.
pub open spec fn is_reference_key(key: Seq<char>) -> bool {
    key == "apiVersion"@ || key == "fieldPath"@ || key == "kind"@ || key == "name"@ || key
        == "namespace"@ || key == "resourceVersion"@ || key == "uid"@
}

/// The keys of the properties are the seven keys of an object reference:
/// each of them, and no other.
pub open spec fn holds_reference_keys(props: Seq<Property>) -> bool {
    forall|key: Seq<char>|
        #![trigger has_property(props, key)]
        #![trigger is_reference_key(key)]
        has_property(props, key) <==> is_reference_key(key)
}

/// The position is one of the seven.
pub open spec fn one_of_seven(k: int, i1: int, i2: int, i3: int, i4: int, i5: int, i6: int, i7: int) -> bool {
    k == i1 || k == i2 || k == i3 || k == i4 || k == i5 || k == i6 || k == i7
}

/// The seven keys of an object reference are different texts.
pub proof fn reference_keys_differ()
    ensures
        "apiVersion"@ != "fieldPath"@,
        "apiVersion"@ != "kind"@,
        "apiVersion"@ != "name"@,
        "apiVersion"@ != "namespace"@,
        "apiVersion"@ != "resourceVersion"@,
        "apiVersion"@ != "uid"@,
        "fieldPath"@ != "kind"@,
        "fieldPath"@ != "name"@,
        "fieldPath"@ != "namespace"@,
        "fieldPath"@ != "resourceVersion"@,
        "fieldPath"@ != "uid"@,
        "kind"@ != "name"@,
        "kind"@ != "namespace"@,
        "kind"@ != "resourceVersion"@,
        "kind"@ != "uid"@,
        "name"@ != "namespace"@,
        "name"@ != "resourceVersion"@,
        "name"@ != "uid"@,
        "namespace"@ != "resourceVersion"@,
        "namespace"@ != "uid"@,
        "resourceVersion"@ != "uid"@,
{
    reveal_strlit("apiVersion");
    reveal_strlit("fieldPath");
    reveal_strlit("kind");
    reveal_strlit("name");
    reveal_strlit("namespace");
    reveal_strlit("resourceVersion");
    reveal_strlit("uid");
    assert("apiVersion"@[0] == 'a');
    assert("fieldPath"@[0] == 'f');
    assert("kind"@[0] == 'k');
    assert("name"@[0] == 'n');
    assert("namespace"@[0] == 'n');
    assert("resourceVersion"@[0] == 'r');
    assert("uid"@[0] == 'u');
    assert("name"@.len() == 4);
    assert("namespace"@.len() == 9);
}

/// Seven different positions below seven are all the positions below seven.
proof fn seven_fill_seven(k: int, i1: int, i2: int, i3: int, i4: int, i5: int, i6: int, i7: int)
    requires
        0 <= k < 7,
        0 <= i1 < 7,
        0 <= i2 < 7,
        0 <= i3 < 7,
        0 <= i4 < 7,
        0 <= i5 < 7,
        0 <= i6 < 7,
        0 <= i7 < 7,
        i1 != i2 && i1 != i3 && i1 != i4 && i1 != i5 && i1 != i6 && i1 != i7,
        i2 != i3 && i2 != i4 && i2 != i5 && i2 != i6 && i2 != i7,
        i3 != i4 && i3 != i5 && i3 != i6 && i3 != i7,
        i4 != i5 && i4 != i6 && i4 != i7,
        i5 != i6 && i5 != i7,
        i6 != i7,
    ensures
        one_of_seven(k, i1, i2, i3, i4, i5, i6, i7),
{
}

/// Where every position below `n` is one of seven different positions
/// below `n`, `n` is seven.
proof fn seven_places(n: int, i1: int, i2: int, i3: int, i4: int, i5: int, i6: int, i7: int)
    requires
        0 <= i1 < n,
        0 <= i2 < n,
        0 <= i3 < n,
        0 <= i4 < n,
        0 <= i5 < n,
        0 <= i6 < n,
        0 <= i7 < n,
        i1 != i2 && i1 != i3 && i1 != i4 && i1 != i5 && i1 != i6 && i1 != i7,
        i2 != i3 && i2 != i4 && i2 != i5 && i2 != i6 && i2 != i7,
        i3 != i4 && i3 != i5 && i3 != i6 && i3 != i7,
        i4 != i5 && i4 != i6 && i4 != i7,
        i5 != i6 && i5 != i7,
        i6 != i7,
        forall|k: int| 0 <= k < n ==> #[trigger] one_of_seven(k, i1, i2, i3, i4, i5, i6, i7),
    ensures
        n == 7,
{
    if n > 7 {
        assert(one_of_seven(0, i1, i2, i3, i4, i5, i6, i7));
        assert(one_of_seven(1, i1, i2, i3, i4, i5, i6, i7));
        assert(one_of_seven(2, i1, i2, i3, i4, i5, i6, i7));
        assert(one_of_seven(3, i1, i2, i3, i4, i5, i6, i7));
        assert(one_of_seven(4, i1, i2, i3, i4, i5, i6, i7));
        assert(one_of_seven(5, i1, i2, i3, i4, i5, i6, i7));
        assert(one_of_seven(6, i1, i2, i3, i4, i5, i6, i7));
        assert(one_of_seven(7, i1, i2, i3, i4, i5, i6, i7));
    }
}

/// A node that has the shape of an object reference holds the seven keys of
/// an object reference and no other, whatever the schemas under them are.
pub proof fn reference_shape_holds_the_seven_keys(value: SchemaNode)
    requires
        has_reference_shape(value),
    ensures
        holds_reference_keys(value.properties->0@),
{
    let p = value.properties->0@;
    reference_keys_differ();
    let i1 = choose|i: int| 0 <= i < p.len() && (#[trigger] p[i]).name@ == "apiVersion"@;
    let i2 = choose|i: int| 0 <= i < p.len() && (#[trigger] p[i]).name@ == "fieldPath"@;
    let i3 = choose|i: int| 0 <= i < p.len() && (#[trigger] p[i]).name@ == "kind"@;
    let i4 = choose|i: int| 0 <= i < p.len() && (#[trigger] p[i]).name@ == "name"@;
    let i5 = choose|i: int| 0 <= i < p.len() && (#[trigger] p[i]).name@ == "namespace"@;
    let i6 = choose|i: int| 0 <= i < p.len() && (#[trigger] p[i]).name@ == "resourceVersion"@;
    let i7 = choose|i: int| 0 <= i < p.len() && (#[trigger] p[i]).name@ == "uid"@;
    assert forall|key: Seq<char>| has_property(p, key) implies is_reference_key(key) by {
        let k = choose|k: int| 0 <= k < p.len() && (#[trigger] p[k]).name@ == key;
        seven_fill_seven(k, i1, i2, i3, i4, i5, i6, i7);
    }
}

/// A node whose properties stand in key order and hold the seven keys of an
/// object reference, each of them and no other, has the shape of an object
/// reference.
pub proof fn the_seven_keys_make_the_shape(value: SchemaNode)
    requires
        value.properties is Some,
        keys_ascend(value.properties->0@),
        holds_reference_keys(value.properties->0@),
    ensures
        has_reference_shape(value),
{
    let p = value.properties->0@;
    reference_keys_differ();
    assert(is_reference_key("apiVersion"@) && has_property(p, "apiVersion"@));
    assert(is_reference_key("fieldPath"@) && has_property(p, "fieldPath"@));
    assert(is_reference_key("kind"@) && has_property(p, "kind"@));
    assert(is_reference_key("name"@) && has_property(p, "name"@));
    assert(is_reference_key("namespace"@) && has_property(p, "namespace"@));
    assert(is_reference_key("resourceVersion"@) && has_property(p, "resourceVersion"@));
    assert(is_reference_key("uid"@) && has_property(p, "uid"@));
    let i1 = choose|i: int| 0 <= i < p.len() && (#[trigger] p[i]).name@ == "apiVersion"@;
    let i2 = choose|i: int| 0 <= i < p.len() && (#[trigger] p[i]).name@ == "fieldPath"@;
    let i3 = choose|i: int| 0 <= i < p.len() && (#[trigger] p[i]).name@ == "kind"@;
    let i4 = choose|i: int| 0 <= i < p.len() && (#[trigger] p[i]).name@ == "name"@;
    let i5 = choose|i: int| 0 <= i < p.len() && (#[trigger] p[i]).name@ == "namespace"@;
    let i6 = choose|i: int| 0 <= i < p.len() && (#[trigger] p[i]).name@ == "resourceVersion"@;
    let i7 = choose|i: int| 0 <= i < p.len() && (#[trigger] p[i]).name@ == "uid"@;
    assert forall|k: int| 0 <= k < p.len() implies #[trigger] one_of_seven(k, i1, i2, i3, i4, i5, i6, i7) by {
        assert(has_property(p, p[k].name@));
        assert(is_reference_key(p[k].name@));
        same_key_same_place(p, k, i1);
        same_key_same_place(p, k, i2);
        same_key_same_place(p, k, i3);
        same_key_same_place(p, k, i4);
        same_key_same_place(p, k, i5);
        same_key_same_place(p, k, i6);
        same_key_same_place(p, k, i7);
    }
    seven_places(p.len() as int, i1, i2, i3, i4, i5, i6, i7);
}

/// A node has the shape of an object reference exactly when the keys of its
/// properties are the seven keys of an object reference, each of them and
/// no other, whatever the schemas under the keys are: an eighth key or a
/// missing one makes it another shape. This holds of every node whose
/// properties stand in key order.
pub proof fn reference_shape_is_the_seven_keys(value: SchemaNode)
    requires
        value.properties is Some,
        keys_ascend(value.properties->0@),
    ensures
        has_reference_shape(value) <==> holds_reference_keys(value.properties->0@),
{
    if has_reference_shape(value) {
        reference_shape_holds_the_seven_keys(value);
    }
    if holds_reference_keys(value.properties->0@) {
        the_seven_keys_make_the_shape(value);
    }
}

/// In a list in key order a key stands at one position only.
pub proof fn same_key_same_place(props: Seq<Property>, i: int, j: int)
    requires
        keys_ascend(props),
        0 <= i < props.len(),
        0 <= j < props.len(),
    ensures
        props[i].name@ == props[j].name@ ==> i == j,
{
    if i < j {
        crate::order::keys_ascend_throughout(props, i, j);
    }
    if j < i {
        crate::order::keys_ascend_throughout(props, j, i);
    }
}

/// An array of objects that have the shape of an object reference is a
/// list of object references where analysis resolves it, and no definition
/// is generated for its elements.
pub proof fn object_reference_list_is_no_definition(
    prop: Property,
    stack: Seq<char>,
    level: u8,
    owner: SchemaNode,
    cfg: Config,
    extracted: bool,
)
    requires
        type_of(prop.schema) == "array"@,
        !cfg.no_object_reference,
        lists_reference_shapes(prop.schema),
        cfg.no_condition || !has_condition_shape(prop.schema),
        cfg.overrides.action_for(prop.name@, prop.schema) is None,
        array_type(prop.schema, stack, prop.name@, 1, cfg) is Ok,
    ensures
        settled_type(prop, stack, cfg) == Ok::<Option<TypeShape>, Failure>(
            Some(TypeShape::List(Box::new(TypeShape::WellKnown(WellKnown::ObjectReference)))),
        ),
        found_under(prop, stack, level, owner, cfg, extracted) == Ok::<Seq<ContainerView>, Failure>(
            Seq::empty(),
        ),
{
    type_names_differ();
}

/// The members of a definition stand in the order of the properties: where
/// no property is omitted, the member at each position is named as the
/// property at that position.
pub proof fn members_follow_properties(
    props: Seq<Property>,
    n: int,
    stack: Seq<char>,
    required: Seq<String>,
    cfg: Config,
)
    requires
        0 <= n <= props.len(),
        members_upto(props, n, stack, required, cfg) is Ok,
        forall|i: int|
            0 <= i < n ==> cfg.overrides.action_for((#[trigger] props[i]).name@, props[i].schema)
                != Some(PropertyAction::Omit),
    ensures
        members_upto(props, n, stack, required, cfg)->Ok_0.len() == n,
        forall|i: int|
            0 <= i < n ==> (#[trigger] members_upto(props, n, stack, required, cfg)->Ok_0[i]).name
                == props[i].name@,
    decreases n,
{
    if n > 0 {
        members_follow_properties(props, n - 1, stack, required, cfg);
        let before = members_upto(props, n - 1, stack, required, cfg)->Ok_0;
        let all = members_upto(props, n, stack, required, cfg)->Ok_0;
        assert(cfg.overrides.action_for(props[n - 1].name@, props[n - 1].schema) != Some(
            PropertyAction::Omit,
        ));
        assert forall|i: int| 0 <= i < n implies (#[trigger] all[i]).name == props[i].name@ by {
            if i < n - 1 {
                assert(all[i] == before[i]);
            }
        }
    }
}


/// The names of the members stand in ascending order, each before the next.
pub open spec fn names_ascend(members: Seq<MemberView>) -> bool {
    forall|i: int, j: int|
        0 <= i && j == i + 1 && j < members.len() ==> crate::text::text_before(
            (#[trigger] members[i]).name,
            (#[trigger] members[j]).name,
        )
}

/// Where the properties stand in the order of their keys and none is
/// omitted, the members of the definition stand in the order of their names.
pub proof fn members_stand_in_key_order(
    props: Seq<Property>,
    stack: Seq<char>,
    required: Seq<String>,
    cfg: Config,
)
    requires
        keys_ascend(props),
        members_upto(props, props.len() as int, stack, required, cfg) is Ok,
        forall|i: int|
            0 <= i < props.len() ==> cfg.overrides.action_for(
                (#[trigger] props[i]).name@,
                props[i].schema,
            ) != Some(PropertyAction::Omit),
    ensures
        names_ascend(members_upto(props, props.len() as int, stack, required, cfg)->Ok_0),
{
    members_follow_properties(props, props.len() as int, stack, required, cfg);
    let members = members_upto(props, props.len() as int, stack, required, cfg)->Ok_0;
    assert forall|i: int, j: int| 0 <= i && j == i + 1 && j < members.len() implies crate::text::text_before(
        (#[trigger] members[i]).name,
        (#[trigger] members[j]).name,
    ) by {
        assert(members[i].name == props[i].name@);
        assert(members[j].name == props[j].name@);
    }
}

/// The names of the catalog that analysis returns are all different.
pub proof fn analysis_names_differ(schema: SchemaNode, kind: Seq<char>, cfg: Config)
    requires
        analysis(schema, kind, cfg) is Ok,
    ensures
        crate::output::names_distinct(analysis(schema, kind, cfg)->Ok_0),
{
    let found = found_in_node(schema, kind, 0, cfg)->Ok_0;
    crate::output::extend_keeps_names_distinct(Seq::empty(), found);
}


/// The definition of the root stands first in the catalog, at level 0: for
/// a root of type `object` that has properties of its own, the catalog
/// begins with the struct named by the kind.
pub proof fn root_definition_stands_first(schema: SchemaNode, kind: Seq<char>, cfg: Config)
    requires
        type_of(schema) == "object"@,
        schema.additional_properties is None,
        schema.properties is Some,
        schema.properties->0.len() > 0,
        analysis(schema, kind, cfg) is Ok,
    ensures
        analysis(schema, kind, cfg)->Ok_0.len() > 0,
        struct_for(schema.properties->0@, upper_camel(kind), 0, schema, schema, cfg) == Ok::<
            ContainerView,
            Failure,
        >(analysis(schema, kind, cfg)->Ok_0[0]),
        analysis(schema, kind, cfg)->Ok_0[0].name == upper_camel(kind),
        analysis(schema, kind, cfg)->Ok_0[0].level == 0,
        !analysis(schema, kind, cfg)->Ok_0[0].is_enum,
{
    let props = schema.properties->0@;
    let name = upper_camel(kind);
    let root = struct_for(props, name, 0, schema, schema, cfg)->Ok_0;
    let more = found_upto(props, props.len() as int, name, 0, schema, cfg, true)->Ok_0;
    let found = found_in_node(schema, kind, 0, cfg)->Ok_0;
    assert(found == seq![root] + more);
    catalog_extend_concat(Seq::empty(), seq![root], more);
    catalog_extend_one(Seq::empty(), root);
    let first = catalog_extend(Seq::empty(), seq![root]);
    assert(first =~= seq![root]);
    crate::output::extend_keeps_what_was_held(first, more);
    assert(catalog_extend(first, more).take(1)[0] == root);
}

} // verus!
