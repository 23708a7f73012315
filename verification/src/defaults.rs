//! Whether a default value can be derived for a definition.
//!
//! An enum has no derived default. A struct has one unless a member stands
//! in its way: a member whose type is the name of a definition of the catalog
//! that has none. A member that is optional, a list or a map never stands in
//! the way. Definitions may refer to each other in a circle; the search
//! follows references no deeper than the catalog is long, which is as deep as
//! any chain without a repeat can be, and lets a chain that goes deeper pass.

use vstd::prelude::*;
use crate::naming::{char_is_uppercase, is_uppercase};
use crate::output::{container_views, Container, ContainerView, MemberView};
use crate::text::{chars_of, contains_char, str_eq};

verus! {

/// The type of a member is the bare name of a definition: no type with
/// arguments, none of the scalar types written in upper case, and a name
/// that begins with an upper case letter.
pub open spec fn names_a_definition(type_: Seq<char>) -> bool {
    &&& !type_.contains('<')
    &&& type_ != "String"@
    &&& type_ != "IntOrString"@
    &&& type_ != "NaiveDate"@
    &&& type_ != "DateTime"@
    &&& type_.len() > 0
    &&& is_uppercase(type_[0])
}

/// The position of the first definition from `from` on that is called `name`.
pub open spec fn first_named(catalog: Seq<ContainerView>, name: Seq<char>, from: int) -> Option<int>
    decreases catalog.len() - from,
{
    if from < 0 || from >= catalog.len() {
        None
    } else if catalog[from].name == name {
        Some(from)
    } else {
        first_named(catalog, name, from + 1)
    }
}

/// No member stands in the way of a default when references are followed
/// `depth` definitions deep.
pub open spec fn derives_within(c: ContainerView, catalog: Seq<ContainerView>, depth: nat) -> bool
    decreases depth, 0nat,
{
    &&& !c.is_enum
    &&& depth > 0 ==> forall|i: int|
        0 <= i < c.members.len() ==> member_permits(
            #[trigger] c.members[i],
            catalog,
            (depth - 1) as nat,
        )
}

/// The member does not stand in the way of a default when references are
/// followed `depth` definitions deep below it.
pub open spec fn member_permits(m: MemberView, catalog: Seq<ContainerView>, depth: nat) -> bool
    decreases depth, 1nat,
{
    names_a_definition(m.type_) ==> match first_named(catalog, m.type_, 0) {
        Some(j) => derives_within(catalog[j], catalog, depth),
        None => true,
    }
}

/// A default can be derived for the definition.
pub open spec fn can_derive(c: ContainerView, catalog: Seq<ContainerView>) -> bool {
    derives_within(c, catalog, catalog.len())
}

/// The table holds, for each definition of the catalog, whether a default
/// derives within the depth.
pub open spec fn table_at(table: Seq<bool>, catalog: Seq<ContainerView>, depth: nat) -> bool {
    &&& table.len() == catalog.len()
    &&& forall|j: int|
        0 <= j < catalog.len() ==> #[trigger] table[j] == derives_within(catalog[j], catalog, depth)
}

/// Whether the type of a member is the bare name of a definition.
fn type_names_definition(type_: &str) -> (r: bool)
    ensures
        r == names_a_definition(type_@),
{
    if contains_char(type_, '<') {
        return false;
    }
    if str_eq(type_, "String") || str_eq(type_, "IntOrString") || str_eq(type_, "NaiveDate")
        || str_eq(type_, "DateTime") {
        return false;
    }
    let chars = chars_of(type_);
    chars.len() > 0 && char_is_uppercase(chars[0])
}

/// The position of the first definition that is called `name`.
fn find_named(containers: &[Container], name: &str) -> (r: Option<usize>)
    ensures
        match r {
            Some(j) => j < containers.len() && first_named(container_views(containers@), name@, 0)
                == Some(j as int),
            None => first_named(container_views(containers@), name@, 0) is None,
        },
{
    let ghost catalog = container_views(containers@);
    let mut i: usize = 0;
    while i < containers.len()
        invariant
            i <= containers.len(),
            catalog == container_views(containers@),
            first_named(catalog, name@, 0) == first_named(catalog, name@, i as int),
        decreases containers.len() - i,
    {
        if str_eq(containers[i].name.as_str(), name) {
            return Some(i);
        }
        i += 1;
    }
    None
}

/// The definition that a member refers to: the first of the catalog that is
/// called as the type of the member, where that type is the bare name of a
/// definition.
pub open spec fn member_link(m: MemberView, catalog: Seq<ContainerView>) -> Option<int> {
    if names_a_definition(m.type_) {
        first_named(catalog, m.type_, 0)
    } else {
        None
    }
}

/// The links that were noted for the members of a definition are the
/// definitions that the members refer to.
pub open spec fn links_of(noted: Seq<Option<usize>>, c: ContainerView, catalog: Seq<ContainerView>) -> bool {
    &&& noted.len() == c.members.len()
    &&& forall|i: int|
        0 <= i < noted.len() ==> match #[trigger] noted[i] {
            Some(k) => k < catalog.len() && member_link(c.members[i], catalog) == Some(k as int),
            None => member_link(c.members[i], catalog) is None,
        }
}

/// The definitions that the members of a definition refer to.
fn note_links(c: &Container, containers: &[Container]) -> (noted: Vec<Option<usize>>)
    ensures
        links_of(noted@, c@, container_views(containers@)),
{
    let ghost catalog = container_views(containers@);
    let mut noted: Vec<Option<usize>> = Vec::new();
    let mut i: usize = 0;
    while i < c.members.len()
        invariant
            i <= c.members.len(),
            catalog == container_views(containers@),
            noted.len() == i,
            forall|k: int|
                0 <= k < i ==> match #[trigger] noted@[k] {
                    Some(j) => j < catalog.len() && member_link(c@.members[k], catalog) == Some(
                        j as int,
                    ),
                    None => member_link(c@.members[k], catalog) is None,
                },
        decreases c.members.len() - i,
    {
        let type_ = c.members[i].type_.as_str();
        let link = if type_names_definition(type_) {
            find_named(containers, type_)
        } else {
            None
        };
        assert(c@.members[i as int].type_ == type_@);
        noted.push(link);
        i += 1;
    }
    noted
}

/// Whether no member stands in the way of a default, with `table` telling
/// for each definition whether a default derives within the depth.
fn links_permit(
    links: &Vec<Option<usize>>,
    table: &Vec<bool>,
    Ghost(c): Ghost<ContainerView>,
    Ghost(catalog): Ghost<Seq<ContainerView>>,
    Ghost(depth): Ghost<nat>,
) -> (r: bool)
    requires
        links_of(links@, c, catalog),
        table_at(table@, catalog, depth),
    ensures
        r == forall|i: int|
            0 <= i < c.members.len() ==> member_permits(#[trigger] c.members[i], catalog, depth),
{
    let mut i: usize = 0;
    while i < links.len()
        invariant
            i <= links.len(),
            links_of(links@, c, catalog),
            table_at(table@, catalog, depth),
            forall|k: int| 0 <= k < i ==> member_permits(#[trigger] c.members[k], catalog, depth),
        decreases links.len() - i,
    {
        let permitted = match links[i] {
            Some(k) => table[k],
            None => true,
        };
        assert(permitted == member_permits(c.members[i as int], catalog, depth));
        if !permitted {
            return false;
        }
        i += 1;
    }
    true
}

/// The links that were noted are those of the definitions of the catalog.
pub open spec fn all_links_of(noted: Seq<Vec<Option<usize>>>, catalog: Seq<ContainerView>) -> bool {
    &&& noted.len() == catalog.len()
    &&& forall|j: int| 0 <= j < noted.len() ==> links_of((#[trigger] noted[j])@, catalog[j], catalog)
}

/// The definitions that the members of every definition refer to.
fn note_all_links(containers: &[Container]) -> (noted: Vec<Vec<Option<usize>>>)
    ensures
        all_links_of(noted@, container_views(containers@)),
{
    let ghost catalog = container_views(containers@);
    let mut noted: Vec<Vec<Option<usize>>> = Vec::new();
    let mut j: usize = 0;
    while j < containers.len()
        invariant
            j <= containers.len(),
            catalog == container_views(containers@),
            noted.len() == j,
            forall|k: int| 0 <= k < j ==> links_of((#[trigger] noted@[k])@, catalog[k], catalog),
        decreases containers.len() - j,
    {
        let links = note_links(&containers[j], containers);
        assert(catalog[j as int] == containers@[j as int]@);
        noted.push(links);
        j += 1;
    }
    noted
}

/// The table one definition deeper.
fn deepen(
    containers: &[Container],
    links: &Vec<Vec<Option<usize>>>,
    table: &Vec<bool>,
    Ghost(depth): Ghost<nat>,
) -> (next: Vec<bool>)
    requires
        all_links_of(links@, container_views(containers@)),
        table_at(table@, container_views(containers@), depth),
    ensures
        table_at(next@, container_views(containers@), depth + 1),
{
    let ghost catalog = container_views(containers@);
    let mut next: Vec<bool> = Vec::new();
    let mut j: usize = 0;
    while j < containers.len()
        invariant
            j <= containers.len(),
            catalog == container_views(containers@),
            all_links_of(links@, catalog),
            table_at(table@, catalog, depth),
            next.len() == j,
            forall|k: int|
                0 <= k < j ==> #[trigger] next@[k] == derives_within(catalog[k], catalog, depth + 1),
        decreases containers.len() - j,
    {
        let c = &containers[j];
        assert(catalog[j as int] == c@);
        let derives = !c.is_enum && links_permit(
            &links[j],
            table,
            Ghost(c@),
            Ghost(catalog),
            Ghost(depth),
        );
        next.push(derives);
        j += 1;
    }
    next
}

/// For each definition of the catalog, whether a default derives when
/// references are followed `depth` definitions deep.
fn table_of(containers: &[Container], depth: usize) -> (table: Vec<bool>)
    ensures
        table_at(table@, container_views(containers@), depth as nat),
{
    let ghost catalog = container_views(containers@);
    let mut table: Vec<bool> = Vec::new();
    let mut j: usize = 0;
    while j < containers.len()
        invariant
            j <= containers.len(),
            catalog == container_views(containers@),
            table.len() == j,
            forall|k: int|
                0 <= k < j ==> #[trigger] table@[k] == derives_within(catalog[k], catalog, 0),
        decreases containers.len() - j,
    {
        assert(catalog[j as int] == containers@[j as int]@);
        table.push(!containers[j].is_enum);
        j += 1;
    }
    if depth == 0 {
        return table;
    }
    let links = note_all_links(containers);
    let mut k: usize = 0;
    while k < depth
        invariant
            k <= depth,
            all_links_of(links@, container_views(containers@)),
            table_at(table@, container_views(containers@), k as nat),
        decreases depth - k,
    {
        table = deepen(containers, &links, &table, Ghost(k as nat));
        k += 1;
    }
    table
}

/// For each definition of the catalog, whether a default can be derived for
/// it.
pub fn derive_default_table(containers: &[Container]) -> (table: Vec<bool>)
    ensures
        table.len() == containers.len(),
        forall|j: int|
            0 <= j < containers.len() ==> #[trigger] table@[j] == can_derive(
                container_views(containers@)[j],
                container_views(containers@),
            ),
{
    table_of(containers, containers.len())
}

impl Container {
    /// Whether a default can be derived for the definition, with
    /// `containers` as the catalog in which the types of its members are
    /// looked up.
    pub fn can_derive_default(&self, containers: &[Container]) -> (r: bool)
        ensures
            r == can_derive(self@, container_views(containers@)),
    {
        if self.is_enum {
            return false;
        }
        let n = containers.len();
        if n == 0 {
            return true;
        }
        let table = table_of(containers, n - 1);
        let links = note_links(self, containers);
        links_permit(
            &links,
            &table,
            Ghost(self@),
            Ghost(container_views(containers@)),
            Ghost((n - 1) as nat),
        )
    }
}

/// The ranks show that no definition of the catalog refers back to itself:
/// every definition has a rank below the length of the catalog, and a
/// definition that a member refers to has a lower rank than the definition
/// of the member.
pub open spec fn ranks_descend(catalog: Seq<ContainerView>, rank: Seq<nat>) -> bool {
    &&& rank.len() == catalog.len()
    &&& forall|i: int| 0 <= i < catalog.len() ==> (#[trigger] rank[i]) < catalog.len()
    &&& forall|i: int, k: int|
        0 <= i < catalog.len() && 0 <= k < catalog[i].members.len() ==> match #[trigger] member_link(
            catalog[i].members[k],
            catalog,
        ) {
            Some(j) => 0 <= j < catalog.len() && rank[j] < rank[i],
            None => true,
        }
}

/// Every definition that a member of the definition refers to has a derived
/// default.
pub open spec fn links_derive(c: ContainerView, catalog: Seq<ContainerView>) -> bool {
    forall|k: int|
        0 <= k < c.members.len() ==> match #[trigger] member_link(c.members[k], catalog) {
            Some(j) => can_derive(catalog[j], catalog),
            None => true,
        }
}

/// In a catalog without a circle, following references deeper than the rank
/// of a definition changes nothing.
pub proof fn depth_beyond_rank(catalog: Seq<ContainerView>, rank: Seq<nat>, i: int, depth: nat, more: nat)
    requires
        ranks_descend(catalog, rank),
        0 <= i < catalog.len(),
        rank[i] < depth <= more,
    ensures
        derives_within(catalog[i], catalog, depth) == derives_within(catalog[i], catalog, more),
    decreases rank[i],
{
    let c = catalog[i];
    assert forall|k: int| 0 <= k < c.members.len() implies member_permits(
        #[trigger] c.members[k],
        catalog,
        (depth - 1) as nat,
    ) == member_permits(c.members[k], catalog, (more - 1) as nat) by {
        match member_link(c.members[k], catalog) {
            Some(j) => {
                if rank[j] < depth - 1 {
                    depth_beyond_rank(catalog, rank, j, (depth - 1) as nat, (more - 1) as nat);
                } else {
                    assert(false);
                }
            },
            None => {},
        }
    }
}

/// In a catalog without a circle, whether a default can be derived follows
/// the references: a struct has one exactly when every definition that one
/// of its members refers to has one, and an enum has none.
pub proof fn default_follows_references(catalog: Seq<ContainerView>, rank: Seq<nat>, i: int)
    requires
        ranks_descend(catalog, rank),
        0 <= i < catalog.len(),
    ensures
        can_derive(catalog[i], catalog) <==> !catalog[i].is_enum && links_derive(catalog[i], catalog),
{
    let c = catalog[i];
    let n = catalog.len();
    assert forall|k: int| 0 <= k < c.members.len() implies member_permits(
        #[trigger] c.members[k],
        catalog,
        (n - 1) as nat,
    ) == match member_link(c.members[k], catalog) {
        Some(j) => can_derive(catalog[j], catalog),
        None => true,
    } by {
        match member_link(c.members[k], catalog) {
            Some(j) => {
                depth_beyond_rank(catalog, rank, j, (n - 1) as nat, n);
            },
            None => {},
        }
    }
    if can_derive(c, catalog) {
        assert forall|k: int| 0 <= k < c.members.len() implies match #[trigger] member_link(
            c.members[k],
            catalog,
        ) {
            Some(j) => can_derive(catalog[j], catalog),
            None => true,
        } by {
            assert(member_permits(c.members[k], catalog, (n - 1) as nat));
        }
    }
    if !c.is_enum && links_derive(c, catalog) {
        assert forall|k: int| 0 <= k < c.members.len() implies member_permits(
            #[trigger] c.members[k],
            catalog,
            (n - 1) as nat,
        ) by {
            assert(match member_link(c.members[k], catalog) {
                Some(j) => can_derive(catalog[j], catalog),
                None => true,
            });
        }
    }
}

} // verus!
