//! Turns the validation schema of a Kubernetes custom resource definition
//! into a catalog of struct and enum definitions, and writes them as source.
//!
//! The way through the crate:
//!
//! - [`schema`] holds the schema tree that everything reads.
//! - [`overrides`] holds the rules that settle single properties by name and
//!   schema, with [`matching`] for the comparison of schemas, and [`alike`],
//!   [`identity`] and [`order`] for what follows from it.
//! - [`analyzer`] walks a schema and returns the catalog of the definitions
//!   that it finds; [`types`] holds the types that it produces and [`output`]
//!   the definitions and the catalog.
//! - [`rename`], [`builders`] and [`defaults`] are the passes over a finished
//!   catalog.
//! - [`crd`], [`derive`], [`docs`] and [`generator`] write the catalog of a
//!   custom resource as source text.
//! - [`naming`] and [`text`] hold what the others need of names and strings;
//!   [`version`] reads version names.

pub mod alike;
pub mod analyzer;
pub mod builders;
pub mod crd;
pub mod defaults;
pub mod derive;
pub mod docs;
pub mod generator;
pub mod identity;
pub mod matching;
pub mod naming;
pub mod order;
pub mod output;
pub mod overrides;
pub mod rename;
pub mod schema;
pub mod text;
pub mod types;
pub mod version;

pub use analyzer::{analyze, AnalysisError, Config, Issue};
pub use crd::{all_crd_versions, find_crd_version};
pub use derive::{Derive, DeriveParseError, Target};
pub use docs::format_docstr;
pub use generator::{has_status_resource, KopiumTypeGenerator};
pub use output::{Container, Member, Output};
pub use overrides::{
    OverrideCompileError, Overrides, PropertyAction, PropertyName, PropertyRule, PropertySchema,
};
pub use schema::{JsonMember, JsonNumber, JsonValue, Property, SchemaNode, SchemaOrArray, SchemaOrBool};
pub use types::{MapType, Primitive, TypeRef, WellKnown};
pub use version::Version;
