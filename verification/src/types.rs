//! The types that analysis produces, and how each is written in source.

use vstd::prelude::*;
use crate::text::concat3;
use vstd::string::StringExecFns;

verus! {

/// The map type that `additionalProperties` turns into.
#[derive(Debug, Clone, Copy, PartialEq, Eq, Structural)]
pub enum MapType {
    BTreeMap,
    HashMap,
}

/// How a map type is written.
pub open spec fn map_type_name(map: MapType) -> Seq<char> {
    match map {
        MapType::BTreeMap => "BTreeMap"@,
        MapType::HashMap => "HashMap"@,
    }
}

impl MapType {
    /// The name of the map type.
    pub fn name(&self) -> (r: &'static str)
        ensures
            r@ == map_type_name(*self),
    {
        match self {
            MapType::BTreeMap => "BTreeMap",
            MapType::HashMap => "HashMap",
        }
    }
}

impl Default for MapType {
    fn default() -> (map: MapType)
        ensures
            map == MapType::BTreeMap,
    {
        MapType::BTreeMap
    }
}

/// A scalar type.
#[derive(Debug, Clone, Copy, PartialEq, Eq, Structural)]
pub enum Primitive {
    String,
    Bool,
    F32,
    F64,
    I8,
    I16,
    I32,
    I64,
    I128,
    U8,
    U16,
    U32,
    U64,
    U128,
    Date,
    DateTime,
}

/// A canonical type that stands for a recognised schema shape.
#[derive(Debug, Clone, Copy, PartialEq, Eq, Structural)]
pub enum WellKnown {
    Condition,
    ObjectReference,
    IntOrString,
}

/// A produced type. The key of a map is always a string.
#[derive(Debug)]
pub enum TypeRef {
    Primitive(Primitive),
    /// A dynamic, untyped value.
    Opaque,
    WellKnown(WellKnown),
    Optional(Box<TypeRef>),
    List(Box<TypeRef>),
    /// A map from strings to the given type.
    MapOf(Box<TypeRef>),
    /// Another definition, by name.
    Reference(String),
}

/// What a `TypeRef` stands for.
pub enum TypeShape {
    Primitive(Primitive),
    Opaque,
    WellKnown(WellKnown),
    Optional(Box<TypeShape>),
    List(Box<TypeShape>),
    MapOf(Box<TypeShape>),
    Reference(Seq<char>),
}

/// How a scalar type is written.
pub open spec fn primitive_name(p: Primitive) -> Seq<char> {
    match p {
        Primitive::String => "String"@,
        Primitive::Bool => "bool"@,
        Primitive::F32 => "f32"@,
        Primitive::F64 => "f64"@,
        Primitive::I8 => "i8"@,
        Primitive::I16 => "i16"@,
        Primitive::I32 => "i32"@,
        Primitive::I64 => "i64"@,
        Primitive::I128 => "i128"@,
        Primitive::U8 => "u8"@,
        Primitive::U16 => "u16"@,
        Primitive::U32 => "u32"@,
        Primitive::U64 => "u64"@,
        Primitive::U128 => "u128"@,
        Primitive::Date => "NaiveDate"@,
        Primitive::DateTime => "DateTime<Utc>"@,
    }
}

/// How a canonical type is written.
pub open spec fn well_known_name(w: WellKnown) -> Seq<char> {
    match w {
        WellKnown::Condition => "Condition"@,
        WellKnown::ObjectReference => "ObjectReference"@,
        WellKnown::IntOrString => "IntOrString"@,
    }
}

/// How a type is written, with `map` as the map type.
pub open spec fn rendered(t: TypeShape, map: MapType) -> Seq<char>
    decreases t,
{
    match t {
        TypeShape::Primitive(p) => primitive_name(p),
        TypeShape::Opaque => "serde_json::Value"@,
        TypeShape::WellKnown(w) => well_known_name(w),
        TypeShape::Optional(inner) => "Option<"@ + rendered(*inner, map) + ">"@,
        TypeShape::List(inner) => "Vec<"@ + rendered(*inner, map) + ">"@,
        TypeShape::MapOf(inner) => map_type_name(map) + "<String, "@ + rendered(*inner, map) + ">"@,
        TypeShape::Reference(name) => name,
    }
}

/// How many `List` layers wrap the type at its top.
pub open spec fn list_depth(t: TypeShape) -> nat
    decreases t,
{
    match t {
        TypeShape::List(inner) => 1 + list_depth(*inner),
        _ => 0,
    }
}

/// The type under the `List` layers at the top.
pub open spec fn list_element(t: TypeShape) -> TypeShape
    decreases t,
{
    match t {
        TypeShape::List(inner) => list_element(*inner),
        _ => t,
    }
}

impl Primitive {
    /// The name of the scalar type.
    pub fn name(&self) -> (r: &'static str)
        ensures
            r@ == primitive_name(*self),
    {
        match self {
            Primitive::String => "String",
            Primitive::Bool => "bool",
            Primitive::F32 => "f32",
            Primitive::F64 => "f64",
            Primitive::I8 => "i8",
            Primitive::I16 => "i16",
            Primitive::I32 => "i32",
            Primitive::I64 => "i64",
            Primitive::I128 => "i128",
            Primitive::U8 => "u8",
            Primitive::U16 => "u16",
            Primitive::U32 => "u32",
            Primitive::U64 => "u64",
            Primitive::U128 => "u128",
            Primitive::Date => "NaiveDate",
            Primitive::DateTime => "DateTime<Utc>",
        }
    }
}

impl WellKnown {
    /// The name of the canonical type.
    pub fn name(&self) -> (r: &'static str)
        ensures
            r@ == well_known_name(*self),
    {
        match self {
            WellKnown::Condition => "Condition",
            WellKnown::ObjectReference => "ObjectReference",
            WellKnown::IntOrString => "IntOrString",
        }
    }
}

/// What a type stands for.
pub open spec fn shape_of(t: TypeRef) -> TypeShape
    decreases t,
{
    match t {
        TypeRef::Primitive(p) => TypeShape::Primitive(p),
        TypeRef::Opaque => TypeShape::Opaque,
        TypeRef::WellKnown(w) => TypeShape::WellKnown(w),
        TypeRef::Optional(inner) => TypeShape::Optional(Box::new(shape_of(*inner))),
        TypeRef::List(inner) => TypeShape::List(Box::new(shape_of(*inner))),
        TypeRef::MapOf(inner) => TypeShape::MapOf(Box::new(shape_of(*inner))),
        TypeRef::Reference(name) => TypeShape::Reference(name@),
    }
}

impl View for TypeRef {
    type V = TypeShape;

    open spec fn view(&self) -> TypeShape {
        shape_of(*self)
    }
}

impl TypeRef {
    /// A scalar type.
    pub fn primitive(p: Primitive) -> (r: TypeRef)
        ensures
            r@ == TypeShape::Primitive(p),
    {
        TypeRef::Primitive(p)
    }

    /// A dynamic, untyped value.
    pub fn opaque() -> (r: TypeRef)
        ensures
            r@ == TypeShape::Opaque,
    {
        TypeRef::Opaque
    }

    /// A canonical type.
    pub fn well_known(w: WellKnown) -> (r: TypeRef)
        ensures
            r@ == TypeShape::WellKnown(w),
    {
        TypeRef::WellKnown(w)
    }

    /// The definition of the given name.
    pub fn reference(name: String) -> (r: TypeRef)
        ensures
            r@ == TypeShape::Reference(name@),
    {
        TypeRef::Reference(name)
    }

    /// The type, or nothing.
    pub fn optional(inner: TypeRef) -> (r: TypeRef)
        ensures
            r@ == TypeShape::Optional(Box::new(inner@)),
    {
        TypeRef::Optional(Box::new(inner))
    }

    /// A list of the type.
    pub fn list_of(element: TypeRef) -> (r: TypeRef)
        ensures
            r@ == TypeShape::List(Box::new(element@)),
    {
        TypeRef::List(Box::new(element))
    }

    /// A map from strings to the type.
    pub fn map_of(element: TypeRef) -> (r: TypeRef)
        ensures
            r@ == TypeShape::MapOf(Box::new(element@)),
    {
        TypeRef::MapOf(Box::new(element))
    }

    /// The type as it is written in source, with `map` as the map type.
    pub fn render(&self, map: MapType) -> (r: String)
        ensures
            r@ == rendered(self@, map),
        decreases self,
    {
        match self {
            TypeRef::Primitive(p) => String::from_str(p.name()),
            TypeRef::Opaque => String::from_str("serde_json::Value"),
            TypeRef::WellKnown(w) => String::from_str(w.name()),
            TypeRef::Optional(inner) => {
                let body = inner.render(map);
                concat3("Option<", body.as_str(), ">")
            },
            TypeRef::List(inner) => {
                let body = inner.render(map);
                concat3("Vec<", body.as_str(), ">")
            },
            TypeRef::MapOf(inner) => {
                let body = inner.render(map);
                let mut r = String::from_str(map.name());
                r.append("<String, ");
                r.append(body.as_str());
                r.append(">");
                r
            },
            TypeRef::Reference(name) => name.clone(),
        }
    }
}

} // verus!
