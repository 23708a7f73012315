//! Generation: the source text for the definitions of a custom resource.
//!
//! The text begins with a warning that it was generated, goes on with a
//! prelude of the imports that the definitions need, and then holds the
//! definitions in the order of the catalog, the root left out. Each
//! definition has its doc comment, the traits that are derived for it and,
//! where it is the spec of the resource, the attributes that make it a
//! custom resource.

use vstd::prelude::*;
use vstd::string::StringExecFns;
use crate::analyzer::{analysis, analyze_schema, AnalysisError, Config, Failure};
use crate::builders::with_builders;
use crate::crd::{find_crd_version, named, version_chosen, Crd, VersionError, VersionFailure};
use crate::defaults::{can_derive, derive_default_table};
use crate::derive::{applies_to, Derive, DeriveParseError, DeriveView, TargetView};
use crate::docs::{doc_comment, fences_marked, format_docstr};
use crate::output::{
    container_views, some_type_holds, Container, ContainerView, Member, MemberView,
};
use crate::overrides::Overrides;
use crate::rename::{can_rename_all, renamed};
use crate::schema::{has_property, SchemaNode};
use crate::text::{
    has_suffix, join, joined, opt_text, replace_all, replaced, str_eq, texts, to_ascii_lowercase,
    ascii_lowered,
};
use crate::types::MapType;

verus! {

/// What is generated, and how.
#[derive(Debug)]
pub struct KopiumTypeGenerator {
    /// The version to generate for where the definition has several.
    pub api_version: Option<String>,
    /// Leave out the prelude.
    pub hide_prelude: bool,
    /// Do not derive `CustomResource` and leave out the attributes for it.
    pub hide_kube: bool,
    /// Write the descriptions as doc comments.
    pub emit_docs: bool,
    /// Derive builders.
    pub builders: bool,
    /// How the schema of the resource is provided: `disabled`, `manual` or
    /// `derived`.
    pub schema_mode: String,
    /// The traits to derive on top of the usual ones.
    pub derive_traits: Vec<Derive>,
    /// The names of the definitions that are left out.
    pub elide: Vec<String>,
    /// Read a value without type or shape as a map of untyped values instead
    /// of failing.
    pub relaxed: bool,
    /// Do not recognise lists of conditions.
    pub no_condition: bool,
    /// Do not recognise object references.
    pub no_object_reference: bool,
    /// The map type that `additionalProperties` turns into.
    pub map_type: MapType,
    /// Do not derive `Default` where no default can be derived.
    pub smart_derive_elision: bool,
}

/// Why nothing was generated.
#[derive(Debug)]
pub enum GenerateError {
    /// No version could be chosen.
    Version(VersionError),
    /// The version has no schema.
    NoSchema,
    /// The schema could not be analysed.
    Analysis(AnalysisError),
    /// A field has a name that cannot be written as an identifier.
    UnnamableField,
}

/// What a `GenerateError` holds.
pub enum GenerateFailure {
    Version(VersionFailure),
    NoSchema,
    Analysis(Failure),
    UnnamableField,
}

impl View for GenerateError {
    type V = GenerateFailure;

    open spec fn view(&self) -> GenerateFailure {
        match self {
            GenerateError::Version(e) => GenerateFailure::Version(e@),
            GenerateError::NoSchema => GenerateFailure::NoSchema,
            GenerateError::Analysis(e) => GenerateFailure::Analysis(e@),
            GenerateError::UnnamableField => GenerateFailure::UnnamableField,
        }
    }
}

/// What the failure says.
pub open spec fn generate_failure_text(e: GenerateFailure) -> Seq<char> {
    match e {
        GenerateFailure::Version(v) => crate::crd::version_failure_message(v),
        GenerateFailure::NoSchema => "no schema found for crd"@,
        GenerateFailure::Analysis(a) => crate::analyzer::failure_text(a),
        GenerateFailure::UnnamableField => "a field name could not be escaped"@,
    }
}

impl GenerateError {
    /// What the error says.
    pub fn message(&self) -> (r: String)
        ensures
            r@ == generate_failure_text(self@),
    {
        match self {
            GenerateError::Version(v) => v.message(),
            GenerateError::NoSchema => String::from_str("no schema found for crd"),
            GenerateError::Analysis(a) => a.message(),
            GenerateError::UnnamableField => String::from_str("a field name could not be escaped"),
        }
    }
}

/// What the text is generated for.
pub struct Resource {
    pub kind: Seq<char>,
    pub plural: Seq<char>,
    pub group: Seq<char>,
    pub scope: Seq<char>,
    pub version: Seq<char>,
    /// The version has a status: as a subresource, or as a property of the
    /// root of its schema.
    pub has_status: bool,
}

/// The text as one line.
pub open spec fn line(text: Seq<char>) -> Seq<char> {
    text + "\n"@
}

/// The text where the condition holds, else nothing.
pub open spec fn when(condition: bool, text: Seq<char>) -> Seq<char> {
    if condition {
        text
    } else {
        Seq::empty()
    }
}

/// Some definition is the status of the resource and has members.
pub open spec fn status_resource_in(catalog: Seq<ContainerView>) -> bool {
    exists|i: int|
        0 <= i < catalog.len() && is_status((#[trigger] catalog[i])) && catalog[i].members.len() > 0
}

/// The definition is the status of the resource.
pub open spec fn is_status(c: ContainerView) -> bool {
    c.level == 1 && has_suffix(c.name, "Status"@)
}

/// The definition is the spec of the resource.
pub open spec fn is_main(c: ContainerView) -> bool {
    c.level == 1 && has_suffix(c.name, "Spec"@)
}

/// Whether some definition is the status of the resource and has members.
pub fn has_status_resource(results: &[Container]) -> (r: bool)
    ensures
        r == status_resource_in(container_views(results@)),
{
    let mut i: usize = 0;
    while i < results.len()
        invariant
            i <= results.len(),
            forall|k: int|
                0 <= k < i ==> !(is_status(#[trigger] container_views(results@)[k])
                    && container_views(results@)[k].members.len() > 0),
        decreases results.len() - i,
    {
        if results[i].is_status_container() && results[i].members.len() > 0 {
            assert(is_status(container_views(results@)[i as int]));
            return true;
        }
        i += 1;
    }
    false
}

/// The warning at the top of the text.
pub open spec fn warning_text(args: Option<Seq<char>>, tool_version: Seq<char>) -> Seq<char> {
    line("// WARNING: generated by kopium - manual changes will be overwritten"@) + (match args {
        Some(a) => line("// kopium command: kopium "@ + a),
        None => Seq::empty(),
    }) + line("// kopium version: "@ + tool_version) + line(Seq::empty())
}

/// A description as a doc comment on a line of its own; nothing where there
/// is no description or descriptions are not written.
pub open spec fn docstr_text(emit_docs: bool, doc: Option<Seq<char>>, indent: Seq<char>) -> Seq<char> {
    match doc {
        Some(d) => when(emit_docs, line(doc_comment(indent, fences_marked(d)))),
        None => Seq::empty(),
    }
}

/// The directive derives `Default`, and no default is derived for the
/// definition.
pub open spec fn default_elided(
    g: KopiumTypeGenerator,
    d: DeriveView,
    c: ContainerView,
    catalog: Seq<ContainerView>,
) -> bool {
    d.derived_trait == "Default"@ && g.smart_derive_elision && !can_derive(c, catalog)
}

/// The traits that are always derived for the definition.
pub open spec fn usual_derives(g: KopiumTypeGenerator, c: ContainerView) -> Seq<Seq<char>> {
    let head: Seq<Seq<char>> = if is_main(c) && !g.hide_kube {
        seq!["CustomResource"@]
    } else {
        Seq::empty()
    };
    let body = head + seq!["Serialize"@, "Deserialize"@, "Clone"@, "Debug"@];
    if g.builders && !c.is_enum {
        body.push("TypedBuilder"@)
    } else {
        body
    }
}

/// The traits that are derived for the definition, after the first `n`
/// directives were read: the usual ones, and each trait of a directive that
/// is meant for the definition, once. `Default` is left out for an enum, and
/// where it is elided.
pub open spec fn derives_upto(
    g: KopiumTypeGenerator,
    c: ContainerView,
    catalog: Seq<ContainerView>,
    n: int,
) -> Seq<Seq<char>>
    decreases n,
{
    if n <= 0 {
        usual_derives(g, c)
    } else {
        let so_far = derives_upto(g, c, catalog, n - 1);
        let d = g.derive_traits@[n - 1]@;
        if default_elided(g, d, c, catalog) || (d.derived_trait == "Default"@ && c.is_enum) {
            so_far
        } else if applies_to(d.target, c) && !so_far.contains(d.derived_trait) {
            so_far.push(d.derived_trait)
        } else {
            so_far
        }
    }
}

/// The line that derives the traits for the definition.
pub open spec fn derive_line(g: KopiumTypeGenerator, c: ContainerView, catalog: Seq<ContainerView>) -> Seq<
    char,
> {
    line(
        "#[derive("@ + joined(derives_upto(g, c, catalog, g.derive_traits.len() as int), ", "@)
            + ")]"@,
    )
}

/// Some directive derives the trait.
pub open spec fn derives_trait(g: KopiumTypeGenerator, name: Seq<char>) -> bool {
    exists|i: int| 0 <= i < g.derive_traits.len() && (#[trigger] g.derive_traits@[i])@.derived_trait == name
}

/// Some member of some definition has a type that holds `needle`.
pub open spec fn some_definition_holds(catalog: Seq<ContainerView>, needle: Seq<char>) -> bool {
    exists|i: int| 0 <= i < catalog.len() && some_type_holds((#[trigger] catalog[i]).members, needle)
}

/// The prelude: the imports that the definitions need.
pub open spec fn prelude_text(g: KopiumTypeGenerator, catalog: Seq<ContainerView>) -> Seq<char> {
    line("#[allow(unused_imports)]"@) + line("mod prelude {"@) + when(
        !g.hide_kube,
        line("    pub use kube::CustomResource;"@),
    ) + when(g.builders, line("    pub use typed_builder::TypedBuilder;"@)) + when(
        derives_trait(g, "JsonSchema"@),
        line("    pub use schemars::JsonSchema;"@),
    ) + line("    pub use serde::{Serialize, Deserialize};"@) + when(
        some_definition_holds(catalog, "BTreeMap"@),
        line("    pub use std::collections::BTreeMap;"@),
    ) + when(
        some_definition_holds(catalog, "HashMap"@),
        line("    pub use std::collections::HashMap;"@),
    ) + when(
        some_definition_holds(catalog, "DateTime"@),
        line("    pub use chrono::{DateTime, Utc};"@),
    ) + when(
        some_definition_holds(catalog, "NaiveDate"@),
        line("    pub use chrono::naive::NaiveDate;"@),
    ) + when(
        some_definition_holds(catalog, "IntOrString"@),
        line("    pub use k8s_openapi::apimachinery::pkg::util::intstr::IntOrString;"@),
    ) + when(
        some_definition_holds(catalog, "Vec<Condition>"@) && !g.no_condition,
        line("    pub use k8s_openapi::apimachinery::pkg::apis::meta::v1::Condition;"@),
    ) + when(
        some_definition_holds(catalog, "ObjectReference"@) && !g.no_object_reference,
        line("    pub use k8s_openapi::api::core::v1::ObjectReference;"@),
    ) + line("}"@) + line("use self::prelude::*;\n"@)
}

/// The attributes that derive traits on the resource, for the first `n`
/// directives: one for each trait but `JsonSchema`, and but `Default` where
/// it is elided.
pub open spec fn kube_derives_upto(
    g: KopiumTypeGenerator,
    c: ContainerView,
    catalog: Seq<ContainerView>,
    n: int,
) -> Seq<char>
    decreases n,
{
    if n <= 0 {
        Seq::empty()
    } else {
        let d = g.derive_traits@[n - 1]@;
        kube_derives_upto(g, c, catalog, n - 1) + when(
            d.derived_trait != "JsonSchema"@ && !default_elided(g, d, c, catalog),
            line("#[kube(derive=\""@ + d.derived_trait + "\")]"@),
        )
    }
}

/// The attributes that make the spec of the resource a custom resource.
pub open spec fn kube_text(
    g: KopiumTypeGenerator,
    r: Resource,
    c: ContainerView,
    catalog: Seq<ContainerView>,
) -> Seq<char> {
    line(
        "#[kube(group = \""@ + r.group + "\", version = \""@ + r.version + "\", kind = \""@ + r.kind
            + "\", plural = \""@ + r.plural + "\")]"@,
    ) + when(r.scope == "Namespaced"@, line("#[kube(namespaced)]"@)) + when(
        r.has_status && status_resource_in(catalog),
        line("#[kube(status = \""@ + r.kind + "Status\")]"@),
    ) + when(
        g.schema_mode@ != "derived"@,
        line("#[kube(schema = \""@ + g.schema_mode@ + "\")]"@),
    ) + kube_derives_upto(g, c, catalog, g.derive_traits.len() as int)
}

/// The text with the kind in the place of the kind followed by `Spec`.
pub open spec fn spec_trimmed(text: Seq<char>, kind: Seq<char>) -> Seq<char> {
    replaced(text, kind + "Spec"@, kind)
}

/// The lines of the first `n` further annotations of a member.
pub open spec fn annotations_upto(annotations: Seq<Seq<char>>, n: int) -> Seq<char>
    decreases n,
{
    if n <= 0 {
        Seq::empty()
    } else {
        annotations_upto(annotations, n - 1) + line("    "@ + annotations[n - 1])
    }
}

/// The lines of a member.
pub open spec fn member_text(emit_docs: bool, kind: Seq<char>, m: MemberView, is_enum: bool) -> Seq<
    char,
> {
    docstr_text(emit_docs, m.docs, "    "@) + when(
        m.serde_annot.len() > 0,
        line("    #[serde("@ + joined(m.serde_annot, ", "@) + ")]"@),
    ) + annotations_upto(m.extra_annot, m.extra_annot.len() as int) + (if is_enum {
        line("    "@ + m.name + ","@)
    } else {
        line("    pub "@ + m.name + ": "@ + spec_trimmed(m.type_, kind) + ","@)
    })
}

/// The lines of the first `n` members.
pub open spec fn members_text(
    emit_docs: bool,
    kind: Seq<char>,
    members: Seq<MemberView>,
    is_enum: bool,
    n: int,
) -> Seq<char>
    decreases n,
{
    if n <= 0 {
        Seq::empty()
    } else {
        members_text(emit_docs, kind, members, is_enum, n - 1) + member_text(
            emit_docs,
            kind,
            members[n - 1],
            is_enum,
        )
    }
}

/// The word for the kind of a definition.
pub open spec fn keyword(c: ContainerView) -> Seq<char> {
    if c.is_enum {
        "pub enum "@
    } else {
        "pub struct "@
    }
}

/// The definition is left out: it is the root, or is elided by name.
pub open spec fn left_out(g: KopiumTypeGenerator, c: ContainerView) -> bool {
    c.level == 0 || texts(g.elide@).contains(c.name)
}

/// The text of a definition that is not left out.
pub open spec fn definition_text(
    g: KopiumTypeGenerator,
    r: Resource,
    c: ContainerView,
    catalog: Seq<ContainerView>,
) -> Seq<char> {
    docstr_text(g.emit_docs, c.docs, Seq::empty()) + derive_line(g, c, catalog) + (if is_main(c) {
        when(!g.hide_kube, kube_text(g, r, c, catalog)) + line(keyword(c) + c.name + " {"@)
    } else {
        line(keyword(c) + spec_trimmed(c.name, r.kind) + " {"@)
    }) + members_text(g.emit_docs, r.kind, c.members, c.is_enum, c.members.len() as int) + line(
        "}"@,
    ) + line(Seq::empty())
}

/// The text of the first `n` definitions.
pub open spec fn definitions_text(
    g: KopiumTypeGenerator,
    r: Resource,
    catalog: Seq<ContainerView>,
    n: int,
) -> Seq<char>
    decreases n,
{
    if n <= 0 {
        Seq::empty()
    } else {
        definitions_text(g, r, catalog, n - 1) + when(
            !left_out(g, catalog[n - 1]),
            definition_text(g, r, catalog[n - 1], catalog),
        )
    }
}

/// The text for a catalog.
pub open spec fn catalog_text(
    g: KopiumTypeGenerator,
    r: Resource,
    catalog: Seq<ContainerView>,
    args: Option<Seq<char>>,
    tool_version: Seq<char>,
) -> Seq<char> {
    warning_text(args, tool_version) + when(!g.hide_prelude, prelude_text(g, catalog))
        + definitions_text(g, r, catalog, catalog.len() as int)
}


/// What the text is generated for: the definition and the version chosen.
pub open spec fn resource_of(crd: Crd, version: crate::crd::CrdVersion) -> Resource {
    Resource {
        kind: crd.kind@,
        plural: crd.plural@,
        group: crd.group@,
        scope: crd.scope@,
        version: version.name@,
        has_status: version.has_status_subresource || (match version.schema {
            Some(schema) => match schema.properties {
                Some(props) => has_property(props@, "status"@),
                None => false,
            },
            None => false,
        }),
    }
}

/// Adds the text as one line.
fn add_line(out: &mut String, text: &str)
    ensures
        final(out)@ == old(out)@ + line(text@),
{
    out.append(text);
    out.append("\n");
    assert(out@ =~= old(out)@ + line(text@));
}

/// Adds the text as one line where the condition holds.
fn add_line_when(out: &mut String, condition: bool, text: &str)
    ensures
        final(out)@ == old(out)@ + when(condition, line(text@)),
{
    if condition {
        add_line(out, text);
    } else {
        assert(out@ =~= old(out)@ + when(condition, line(text@)));
    }
}

/// Adds the text.
fn add_text(out: &mut String, text: &str)
    ensures
        final(out)@ == old(out)@ + text@,
{
    out.append(text);
}

/// The text as one line.
fn as_line(text: &str) -> (r: String)
    ensures
        r@ == line(text@),
{
    let mut r = String::from_str(text);
    r.append("\n");
    r
}

/// The warning at the top of the text.
pub fn write_generation_warning(args: Option<&str>, tool_version: &str) -> (r: String)
    ensures
        r@ == warning_text(named(args), tool_version@),
{
    let mut out = as_line("// WARNING: generated by kopium - manual changes will be overwritten");
    match args {
        Some(a) => {
            let mut l = String::from_str("// kopium command: kopium ");
            l.append(a);
            add_line(&mut out, l.as_str());
        },
        None => {
            assert(out@ + Seq::<char>::empty() =~= out@);
        },
    }
    let mut l = String::from_str("// kopium version: ");
    l.append(tool_version);
    add_line(&mut out, l.as_str());
    add_line(&mut out, "");
    proof {
        reveal_strlit("");
        assert(""@ =~= Seq::<char>::empty());
    }
    out
}

/// Whether some member of some definition has a type that holds `needle`.
fn any_definition_holds(containers: &[Container], needle: &str) -> (r: bool)
    ensures
        r == some_definition_holds(container_views(containers@), needle@),
{
    let ghost catalog = container_views(containers@);
    let mut i: usize = 0;
    while i < containers.len()
        invariant
            i <= containers.len(),
            catalog == container_views(containers@),
            forall|k: int| 0 <= k < i ==> !some_type_holds((#[trigger] catalog[k]).members, needle@),
        decreases containers.len() - i,
    {
        if containers[i].any_type_holds(needle) {
            assert(some_type_holds(catalog[i as int].members, needle@));
            return true;
        }
        i += 1;
    }
    false
}

impl KopiumTypeGenerator {
    /// A description as a doc comment on a line of its own; nothing where
    /// there is no description or descriptions are not written.
    pub fn write_docstr(&self, doc: &Option<String>, indent: &str) -> (r: String)
        ensures
            r@ == docstr_text(self.emit_docs, opt_text(*doc), indent@),
    {
        match doc {
            Some(d) => {
                if self.emit_docs {
                    let comment = format_docstr(indent, d.as_str());
                    as_line(comment.as_str())
                } else {
                    String::new()
                }
            },
            None => String::new(),
        }
    }

    /// Whether some directive derives the trait.
    fn derives_some(&self, name: &str) -> (r: bool)
        ensures
            r == derives_trait(*self, name@),
    {
        let mut i: usize = 0;
        while i < self.derive_traits.len()
            invariant
                i <= self.derive_traits.len(),
                forall|k: int|
                    0 <= k < i ==> (#[trigger] self.derive_traits@[k])@.derived_trait != name@,
            decreases self.derive_traits.len() - i,
        {
            if str_eq(self.derive_traits[i].derived_trait.as_str(), name) {
                return true;
            }
            i += 1;
        }
        false
    }

    /// The line that derives the traits for a definition of the catalog.
    pub fn write_derives(&self, struct_def: &Container, containers: &[Container]) -> (r: String)
        ensures
            r@ == derive_line(*self, struct_def@, container_views(containers@)),
    {
        let derivable = struct_def.can_derive_default(containers);
        self.derive_line_for(struct_def, derivable, Ghost(container_views(containers@)))
    }

    /// The line that derives the traits for a definition. `derivable` tells
    /// whether a default can be derived for it.
    fn derive_line_for(
        &self,
        c: &Container,
        derivable: bool,
        Ghost(catalog): Ghost<Seq<ContainerView>>,
    ) -> (r: String)
        requires
            derivable == can_derive(c@, catalog),
        ensures
            r@ == derive_line(*self, c@, catalog),
    {
        let mut derives: Vec<String> = Vec::new();
        if c.is_main_container() && !self.hide_kube {
            derives.push(String::from_str("CustomResource"));
        }
        derives.push(String::from_str("Serialize"));
        derives.push(String::from_str("Deserialize"));
        derives.push(String::from_str("Clone"));
        derives.push(String::from_str("Debug"));
        if self.builders && !c.is_enum {
            derives.push(String::from_str("TypedBuilder"));
        }
        assert(texts(derives@) =~= usual_derives(*self, c@));
        let mut i: usize = 0;
        while i < self.derive_traits.len()
            invariant
                i <= self.derive_traits.len(),
                derivable == can_derive(c@, catalog),
                texts(derives@) == derives_upto(*self, c@, catalog, i as int),
            decreases self.derive_traits.len() - i,
        {
            let d = &self.derive_traits[i];
            let ghost before = texts(derives@);
            let is_default = str_eq(d.derived_trait.as_str(), "Default");
            let skipped = is_default && ((self.smart_derive_elision && !derivable) || c.is_enum);
            if !skipped && d.is_applicable_to(c) && !crate::text::list_holds(
                &derives,
                d.derived_trait.as_str(),
            ) {
                derives.push(d.derived_trait.clone());
                assert(texts(derives@) =~= before.push(d@.derived_trait));
            }
            i += 1;
        }
        let list = join(&derives, ", ");
        let mut l = String::from_str("#[derive(");
        l.append(list.as_str());
        l.append(")]");
        as_line(l.as_str())
    }

    /// The prelude: the imports that the definitions need.
    pub fn write_prelude(&self, results: &[Container]) -> (r: String)
        ensures
            r@ == prelude_text(*self, container_views(results@)),
    {
        let mut out = as_line("#[allow(unused_imports)]");
        add_line(&mut out, "mod prelude {");
        add_line_when(&mut out, !self.hide_kube, "    pub use kube::CustomResource;");
        add_line_when(&mut out, self.builders, "    pub use typed_builder::TypedBuilder;");
        add_line_when(
            &mut out,
            self.derives_some("JsonSchema"),
            "    pub use schemars::JsonSchema;",
        );
        add_line(&mut out, "    pub use serde::{Serialize, Deserialize};");
        add_line_when(
            &mut out,
            any_definition_holds(results, "BTreeMap"),
            "    pub use std::collections::BTreeMap;",
        );
        add_line_when(
            &mut out,
            any_definition_holds(results, "HashMap"),
            "    pub use std::collections::HashMap;",
        );
        add_line_when(
            &mut out,
            any_definition_holds(results, "DateTime"),
            "    pub use chrono::{DateTime, Utc};",
        );
        add_line_when(
            &mut out,
            any_definition_holds(results, "NaiveDate"),
            "    pub use chrono::naive::NaiveDate;",
        );
        add_line_when(
            &mut out,
            any_definition_holds(results, "IntOrString"),
            "    pub use k8s_openapi::apimachinery::pkg::util::intstr::IntOrString;",
        );
        add_line_when(
            &mut out,
            any_definition_holds(results, "Vec<Condition>") && !self.no_condition,
            "    pub use k8s_openapi::apimachinery::pkg::apis::meta::v1::Condition;",
        );
        add_line_when(
            &mut out,
            any_definition_holds(results, "ObjectReference") && !self.no_object_reference,
            "    pub use k8s_openapi::api::core::v1::ObjectReference;",
        );
        add_line(&mut out, "}");
        add_line(&mut out, "use self::prelude::*;\n");
        out
    }

    /// The attributes that derive traits on the resource.
    fn write_kube_derives(
        &self,
        c: &Container,
        derivable: bool,
        Ghost(catalog): Ghost<Seq<ContainerView>>,
    ) -> (r: String)
        requires
            derivable == can_derive(c@, catalog),
        ensures
            r@ == kube_derives_upto(*self, c@, catalog, self.derive_traits.len() as int),
    {
        let mut out = String::new();
        let mut i: usize = 0;
        while i < self.derive_traits.len()
            invariant
                i <= self.derive_traits.len(),
                derivable == can_derive(c@, catalog),
                out@ == kube_derives_upto(*self, c@, catalog, i as int),
            decreases self.derive_traits.len() - i,
        {
            let d = &self.derive_traits[i];
            let name = d.derived_trait.as_str();
            let elided = str_eq(name, "Default") && self.smart_derive_elision && !derivable;
            let mut l = String::from_str("#[kube(derive=\"");
            l.append(name);
            l.append("\")]");
            add_line_when(&mut out, !str_eq(name, "JsonSchema") && !elided, l.as_str());
            i += 1;
        }
        out
    }

    /// The attributes that make the spec of the resource a custom resource.
    fn write_kube(
        &self,
        crd: &Crd,
        version: &crate::crd::CrdVersion,
        c: &Container,
        derivable: bool,
        results: &[Container],
    ) -> (r: String)
        requires
            derivable == can_derive(c@, container_views(results@)),
        ensures
            r@ == kube_text(*self, resource_of(*crd, *version), c@, container_views(results@)),
    {
        let mut l = String::from_str("#[kube(group = \"");
        l.append(crd.group.as_str());
        l.append("\", version = \"");
        l.append(version.name.as_str());
        l.append("\", kind = \"");
        l.append(crd.kind.as_str());
        l.append("\", plural = \"");
        l.append(crd.plural.as_str());
        l.append("\")]");
        let mut out = as_line(l.as_str());
        add_line_when(&mut out, str_eq(crd.scope.as_str(), "Namespaced"), "#[kube(namespaced)]");
        let in_schema = match &version.schema {
            Some(schema) => match &schema.properties {
                Some(props) => SchemaNode::has_key(props, "status"),
                None => false,
            },
            None => false,
        };
        let has_status = version.has_status_subresource || in_schema;
        let mut status = String::from_str("#[kube(status = \"");
        status.append(crd.kind.as_str());
        status.append("Status\")]");
        add_line_when(&mut out, has_status && has_status_resource(results), status.as_str());
        let mut mode = String::from_str("#[kube(schema = \"");
        mode.append(self.schema_mode.as_str());
        mode.append("\")]");
        add_line_when(&mut out, !str_eq(self.schema_mode.as_str(), "derived"), mode.as_str());
        let derives = self.write_kube_derives(c, derivable, Ghost(container_views(results@)));
        add_text(&mut out, derives.as_str());
        out
    }

    /// The lines of the further annotations of a member.
    fn write_annotations(annotations: &Vec<String>) -> (r: String)
        ensures
            r@ == annotations_upto(texts(annotations@), annotations.len() as int),
    {
        let mut out = String::new();
        let mut i: usize = 0;
        while i < annotations.len()
            invariant
                i <= annotations.len(),
                out@ == annotations_upto(texts(annotations@), i as int),
            decreases annotations.len() - i,
        {
            let mut l = String::from_str("    ");
            l.append(annotations[i].as_str());
            add_line(&mut out, l.as_str());
            i += 1;
        }
        out
    }

    /// The lines of a member.
    fn write_member(&self, kind: &str, m: &Member, is_enum: bool) -> (r: String)
        ensures
            r@ == member_text(self.emit_docs, kind@, m@, is_enum),
    {
        let mut out = self.write_docstr(&m.docs, "    ");
        let annotations = join(&m.serde_annot, ", ");
        let mut serde = String::from_str("    #[serde(");
        serde.append(annotations.as_str());
        serde.append(")]");
        add_line_when(&mut out, m.serde_annot.len() > 0, serde.as_str());
        let extra = Self::write_annotations(&m.extra_annot);
        add_text(&mut out, extra.as_str());
        if is_enum {
            let mut l = String::from_str("    ");
            l.append(m.name.as_str());
            l.append(",");
            add_line(&mut out, l.as_str());
        } else {
            let mut from = String::from_str(kind);
            from.append("Spec");
            let trimmed = replace_all(m.type_.as_str(), from.as_str(), kind);
            let mut l = String::from_str("    pub ");
            l.append(m.name.as_str());
            l.append(": ");
            l.append(trimmed.as_str());
            l.append(",");
            add_line(&mut out, l.as_str());
        }
        out
    }

    /// The lines of the members of a definition.
    fn write_members(&self, kind: &str, c: &Container) -> (r: String)
        ensures
            r@ == members_text(self.emit_docs, kind@, c@.members, c.is_enum, c.members.len() as int),
    {
        let mut out = String::new();
        let mut i: usize = 0;
        while i < c.members.len()
            invariant
                i <= c.members.len(),
                out@ == members_text(self.emit_docs, kind@, c@.members, c.is_enum, i as int),
            decreases c.members.len() - i,
        {
            let text = self.write_member(kind, &c.members[i], c.is_enum);
            assert(c@.members[i as int] == c.members@[i as int]@);
            add_text(&mut out, text.as_str());
            i += 1;
        }
        out
    }

    /// The text of a definition that is not left out.
    fn write_definition(
        &self,
        crd: &Crd,
        version: &crate::crd::CrdVersion,
        c: &Container,
        derivable: bool,
        results: &[Container],
    ) -> (r: String)
        requires
            derivable == can_derive(c@, container_views(results@)),
        ensures
            r@ == definition_text(*self, resource_of(*crd, *version), c@, container_views(results@)),
    {
        let kind = crd.kind.as_str();
        let mut out = self.write_docstr(&c.docs, "");
        proof {
            reveal_strlit("");
            assert(""@ =~= Seq::<char>::empty());
        }
        let derives = self.derive_line_for(c, derivable, Ghost(container_views(results@)));
        add_text(&mut out, derives.as_str());
        let word = if c.is_enum {
            "pub enum "
        } else {
            "pub struct "
        };
        if c.is_main_container() {
            let mut head = if !self.hide_kube {
                self.write_kube(crd, version, c, derivable, results)
            } else {
                String::new()
            };
            let mut l = String::from_str(word);
            l.append(c.name.as_str());
            l.append(" {");
            add_line(&mut head, l.as_str());
            add_text(&mut out, head.as_str());
        } else {
            let mut from = String::from_str(kind);
            from.append("Spec");
            let trimmed = replace_all(c.name.as_str(), from.as_str(), kind);
            let mut l = String::from_str(word);
            l.append(trimmed.as_str());
            l.append(" {");
            let text = as_line(l.as_str());
            add_text(&mut out, text.as_str());
        }
        let members = self.write_members(kind, c);
        add_text(&mut out, members.as_str());
        add_line(&mut out, "}");
        add_line(&mut out, "");
        out
    }

    /// The source text for a catalog of definitions of the given version of
    /// a custom resource. `args` is the command line that asked for it and
    /// `tool_version` the version of the program, both for the warning at
    /// the top.
    pub fn write_catalog(
        &self,
        crd: &Crd,
        version: &crate::crd::CrdVersion,
        results: &[Container],
        args: Option<&str>,
        tool_version: &str,
    ) -> (r: String)
        ensures
            r@ == catalog_text(
                *self,
                resource_of(*crd, *version),
                container_views(results@),
                named(args),
                tool_version@,
            ),
    {
        let ghost catalog = container_views(results@);
        let mut out = write_generation_warning(args, tool_version);
        if !self.hide_prelude {
            let prelude = self.write_prelude(results);
            add_text(&mut out, prelude.as_str());
        } else {
            assert(out@ + Seq::<char>::empty() =~= out@);
        }
        let table = derive_default_table(results);
        let mut body = String::new();
        let mut i: usize = 0;
        while i < results.len()
            invariant
                i <= results.len(),
                catalog == container_views(results@),
                table.len() == results.len(),
                forall|j: int|
                    0 <= j < results.len() ==> #[trigger] table@[j] == can_derive(catalog[j], catalog),
                body@ == definitions_text(*self, resource_of(*crd, *version), catalog, i as int),
            decreases results.len() - i,
        {
            let c = &results[i];
            assert(catalog[i as int] == c@);
            if c.level == 0 || crate::text::list_holds(&self.elide, c.name.as_str()) {
                assert(body@ + Seq::<char>::empty() =~= body@);
            } else {
                let text = self.write_definition(crd, version, c, table[i], results);
                add_text(&mut body, text.as_str());
            }
            i += 1;
        }
        add_text(&mut out, body.as_str());
        out
    }
}


/// How the schema is read for the generator.
pub open spec fn config_of(g: KopiumTypeGenerator, overrides: Overrides) -> Config {
    Config {
        no_condition: g.no_condition,
        no_object_reference: g.no_object_reference,
        map: g.map_type,
        relaxed: g.relaxed,
        overrides,
    }
}

/// The catalog as it is written: every member under its name in the source,
/// and with its builder annotation where builders are derived.
pub open spec fn finished(g: KopiumTypeGenerator, catalog: Seq<ContainerView>) -> Seq<ContainerView> {
    let named = catalog.map_values(|c: ContainerView| renamed(c));
    if g.builders {
        named.map_values(|c: ContainerView| with_builders(c))
    } else {
        named
    }
}

/// The source text for a custom resource definition, or why there is none:
/// no version to generate for, a version without schema, a schema that
/// cannot be analysed, or a field that cannot be named.
pub open spec fn generated(
    g: KopiumTypeGenerator,
    crd: Crd,
    args: Option<Seq<char>>,
    tool_version: Seq<char>,
    overrides: Overrides,
) -> Result<Seq<char>, GenerateFailure> {
    match version_chosen(crd, opt_text(g.api_version)) {
        Err(e) => Err(GenerateFailure::Version(e)),
        Ok(i) => match crd.versions@[i].schema {
            None => Err(GenerateFailure::NoSchema),
            Some(schema) => match analysis(schema, crd.kind@, config_of(g, overrides)) {
                Err(e) => Err(GenerateFailure::Analysis(e)),
                Ok(catalog) => if can_rename_all(catalog) {
                    Ok(
                        catalog_text(
                            g,
                            resource_of(crd, crd.versions@[i]),
                            finished(g, catalog),
                            args,
                            tool_version,
                        ),
                    )
                } else {
                    Err(GenerateFailure::UnnamableField)
                },
            },
        },
    }
}

impl KopiumTypeGenerator {
    /// Generates the source text for a custom resource definition. `args`
    /// is the command line that asked for it and `tool_version` the version
    /// of the program, both for the warning at the top; `overrides` holds the
    /// rules that take the place of what analysis would infer.
    pub fn generate_rust_types_for(
        &self,
        crd: &Crd,
        args: Option<&str>,
        tool_version: &str,
        overrides: Overrides,
    ) -> (r: Result<String, GenerateError>)
        ensures
            match r {
                Ok(text) => generated(*self, *crd, named(args), tool_version@, overrides) == Ok::<
                    Seq<char>,
                    GenerateFailure,
                >(text@),
                Err(e) => generated(*self, *crd, named(args), tool_version@, overrides) == Err::<
                    Seq<char>,
                    GenerateFailure,
                >(e@),
            },
    {
        let wanted = match &self.api_version {
            Some(name) => Some(name.as_str()),
            None => None,
        };
        let version = match find_crd_version(crd, wanted) {
            Ok(version) => version,
            Err(e) => {
                return Err(GenerateError::Version(e));
            },
        };
        let schema = match &version.schema {
            Some(schema) => schema,
            None => {
                return Err(GenerateError::NoSchema);
            },
        };
        let cfg = Config {
            no_condition: self.no_condition,
            no_object_reference: self.no_object_reference,
            map: self.map_type,
            relaxed: self.relaxed,
            overrides,
        };
        let found = match analyze_schema(schema, crd.kind.as_str(), &cfg) {
            Ok(found) => found,
            Err(e) => {
                return Err(GenerateError::Analysis(e));
            },
        };
        let named = match found.try_rename() {
            Ok(named) => named,
            Err(_) => {
                return Err(GenerateError::UnnamableField);
            },
        };
        let structs = named.builder_fields(self.builders).output();
        Ok(self.write_catalog(crd, version, structs.as_slice(), args, tool_version))
    }

    /// Turns all automation on or off: descriptions are written as doc
    /// comments and the schema is derived, or neither.
    pub fn auto(&mut self, value: bool)
        ensures
            final(self).emit_docs == value,
            final(self).schema_mode@ == if value {
                "derived"@
            } else {
                "disabled"@
            },
            final(self).api_version == old(self).api_version,
            final(self).hide_prelude == old(self).hide_prelude,
            final(self).hide_kube == old(self).hide_kube,
            final(self).builders == old(self).builders,
            final(self).derive_traits == old(self).derive_traits,
            final(self).elide == old(self).elide,
            final(self).relaxed == old(self).relaxed,
            final(self).no_condition == old(self).no_condition,
            final(self).no_object_reference == old(self).no_object_reference,
            final(self).map_type == old(self).map_type,
            final(self).smart_derive_elision == old(self).smart_derive_elision,
    {
        self.emit_docs = value;
        if value {
            self.schema_mode = String::from_str("derived");
        } else {
            self.schema_mode = String::from_str("disabled");
        }
    }

    /// Writes the descriptions as doc comments, or not.
    pub fn docs(&mut self, value: bool)
        ensures
            *final(self) == (KopiumTypeGenerator { emit_docs: value, ..*old(self) }),
    {
        self.emit_docs = value;
    }

    /// Adds a directive.
    pub fn derive(&mut self, value: Derive)
        ensures
            *final(self) == (KopiumTypeGenerator {
                derive_traits: final(self).derive_traits,
                ..*old(self)
            }),
            final(self).derive_traits@ == old(self).derive_traits@.push(value),
    {
        self.derive_traits.push(value);
    }

    /// Reads a directive and adds it; a text that is no directive changes
    /// nothing and comes back as an error.
    pub fn try_derive(&mut self, value: &str) -> (r: Result<(), DeriveParseError>)
        ensures
            *final(self) == (KopiumTypeGenerator {
                derive_traits: final(self).derive_traits,
                ..*old(self)
            }),
            match r {
                Ok(_) => final(self).derive_traits.len() == old(self).derive_traits.len() + 1
                    && final(self).derive_traits@.drop_last() == old(self).derive_traits@
                    && crate::derive::directive(value@) == Ok::<
                    DeriveView,
                    crate::derive::DeriveFailure,
                >(final(self).derive_traits@.last()@),
                Err(e) => final(self).derive_traits == old(self).derive_traits
                    && crate::derive::directive(value@) == Err::<
                    DeriveView,
                    crate::derive::DeriveFailure,
                >(e@),
            },
    {
        match Derive::parse(value) {
            Ok(d) => {
                self.derive_traits.push(d);
                assert(self.derive_traits@.drop_last() =~= old(self).derive_traits@);
                Ok(())
            },
            Err(e) => Err(e),
        }
    }
}

impl Default for KopiumTypeGenerator {
    fn default() -> (g: KopiumTypeGenerator)
        ensures
            g.api_version is None,
            !g.hide_prelude,
            !g.hide_kube,
            !g.emit_docs,
            !g.builders,
            g.schema_mode@ == "disabled"@,
            g.derive_traits.len() == 0,
            g.elide.len() == 0,
            !g.relaxed,
            !g.no_condition,
            !g.no_object_reference,
            g.map_type == MapType::BTreeMap,
            !g.smart_derive_elision,
    {
        KopiumTypeGenerator {
            api_version: None,
            hide_prelude: false,
            hide_kube: false,
            emit_docs: false,
            builders: false,
            schema_mode: String::from_str("disabled"),
            derive_traits: Vec::new(),
            elide: Vec::new(),
            relaxed: false,
            no_condition: false,
            no_object_reference: false,
            map_type: MapType::BTreeMap,
            smart_derive_elision: false,
        }
    }
}


/// The views of a list of directives.
pub open spec fn derive_views(list: Seq<Derive>) -> Seq<DeriveView> {
    list.map_values(|d: Derive| d@)
}

/// The directive that derives `JsonSchema` for every definition.
pub open spec fn json_schema_for_all() -> DeriveView {
    DeriveView { target: TargetView::All, derived_trait: "JsonSchema"@ }
}

/// The first `n` directives without those that derive `JsonSchema` for
/// every definition.
pub open spec fn without_json_schema(list: Seq<DeriveView>, n: int) -> Seq<DeriveView>
    decreases n,
{
    if n <= 0 {
        Seq::empty()
    } else if list[n - 1] == json_schema_for_all() {
        without_json_schema(list, n - 1)
    } else {
        without_json_schema(list, n - 1).push(list[n - 1])
    }
}

/// The directives that go with a schema mode: none where the schema is
/// disabled; none that derives `JsonSchema` for every definition where it is
/// provided by hand; one that does where it is derived. Any other mode keeps
/// the directives.
pub open spec fn directives_for_mode(list: Seq<DeriveView>, mode: Seq<char>) -> Seq<DeriveView> {
    if mode == "disabled"@ {
        Seq::empty()
    } else if mode == "manual"@ {
        without_json_schema(list, list.len() as int)
    } else if mode == "derived"@ {
        if list.contains(json_schema_for_all()) {
            list
        } else {
            list.push(json_schema_for_all())
        }
    } else {
        list
    }
}

/// The directives without those that derive `JsonSchema` for every
/// definition.
fn drop_json_schema(list: Vec<Derive>) -> (kept: Vec<Derive>)
    ensures
        derive_views(kept@) == without_json_schema(derive_views(list@), list.len() as int),
{
    let ghost all = derive_views(list@);
    let json = Derive::all("JsonSchema");
    let mut kept: Vec<Derive> = Vec::new();
    assert(derive_views(kept@) =~= without_json_schema(all, 0));
    for d in it: list
        invariant
            all == derive_views(it.seq()),
            json@ == json_schema_for_all(),
            derive_views(kept@) == without_json_schema(all, it.index() as int),
    {
        let ghost before = derive_views(kept@);
        assert(all[it.index() as int] == d@);
        if !(d == json) {
            kept.push(d);
            assert(derive_views(kept@) =~= before.push(d@));
        }
    }
    kept
}

/// Whether the list holds the directive.
fn holds_directive(list: &Vec<Derive>, wanted: &Derive) -> (r: bool)
    ensures
        r == derive_views(list@).contains(wanted@),
{
    let ghost views = derive_views(list@);
    let mut i: usize = 0;
    while i < list.len()
        invariant
            i <= list.len(),
            views == derive_views(list@),
            forall|k: int| 0 <= k < i ==> views[k] != wanted@,
        decreases list.len() - i,
    {
        if list[i] == *wanted {
            assert(views[i as int] == wanted@);
            return true;
        }
        i += 1;
    }
    false
}

impl KopiumTypeGenerator {
    /// Sets the schema mode, in lower case, and fits the directives to it.
    pub fn schema(&mut self, value: &str)
        ensures
            final(self).schema_mode@ == ascii_lowered(value@),
            derive_views(final(self).derive_traits@) == directives_for_mode(
                derive_views(old(self).derive_traits@),
                ascii_lowered(value@),
            ),
            *final(self) == (KopiumTypeGenerator {
                schema_mode: final(self).schema_mode,
                derive_traits: final(self).derive_traits,
                ..*old(self)
            }),
    {
        self.schema_mode = to_ascii_lowercase(value);
        let ghost given = derive_views(self.derive_traits@);
        if str_eq(self.schema_mode.as_str(), "disabled") {
            self.derive_traits = Vec::new();
            assert(derive_views(self.derive_traits@) =~= Seq::empty());
        } else if str_eq(self.schema_mode.as_str(), "manual") {
            let mut list: Vec<Derive> = Vec::new();
            core::mem::swap(&mut self.derive_traits, &mut list);
            self.derive_traits = drop_json_schema(list);
        } else if str_eq(self.schema_mode.as_str(), "derived") {
            let json = Derive::all("JsonSchema");
            if !holds_directive(&self.derive_traits, &json) {
                self.derive_traits.push(json);
                assert(derive_views(self.derive_traits@) =~= given.push(json@));
            }
        }
    }
}

} // verus!
