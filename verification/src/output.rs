//! The definitions that analysis finds, and the catalog that collects them.

use vstd::prelude::*;
use crate::text::{
    contains, ends_with, has_substring, has_suffix, opt_text, str_eq, texts,
};

verus! {

/// One field of a struct definition, or one variant of an enum definition.
#[derive(Debug)]
pub struct Member {
    /// The name; the raw wire key until the definition is renamed.
    pub name: String,
    /// The type as it is written in source; empty for an enum variant.
    pub type_: String,
    /// The serde annotations of the member.
    pub serde_annot: Vec<String>,
    /// Further annotations of the member, each a whole attribute.
    pub extra_annot: Vec<String>,
    /// The description of the property.
    pub docs: Option<String>,
}

/// What a `Member` holds.
pub struct MemberView {
    pub name: Seq<char>,
    pub type_: Seq<char>,
    pub serde_annot: Seq<Seq<char>>,
    pub extra_annot: Seq<Seq<char>>,
    pub docs: Option<Seq<char>>,
}

impl View for Member {
    type V = MemberView;

    open spec fn view(&self) -> MemberView {
        MemberView {
            name: self.name@,
            type_: self.type_@,
            serde_annot: texts(self.serde_annot@),
            extra_annot: texts(self.extra_annot@),
            docs: opt_text(self.docs),
        }
    }
}

impl Default for Member {
    fn default() -> (m: Member)
        ensures
            m@ == (MemberView {
                name: Seq::empty(),
                type_: Seq::empty(),
                serde_annot: Seq::empty(),
                extra_annot: Seq::empty(),
                docs: None,
            }),
    {
        let m = Member {
            name: String::new(),
            type_: String::new(),
            serde_annot: Vec::new(),
            extra_annot: Vec::new(),
            docs: None,
        };
        assert(m@.serde_annot =~= Seq::empty());
        assert(m@.extra_annot =~= Seq::empty());
        m
    }
}

/// A struct or enum definition.
#[derive(Debug)]
pub struct Container {
    /// The name: the path from the root kind down to the node, in upper camel
    /// case.
    pub name: String,
    /// How deep below the root the definition was found.
    pub level: u8,
    /// The fields or variants.
    pub members: Vec<Member>,
    /// The description of the node.
    pub docs: Option<String>,
    /// Whether this is an enum definition.
    pub is_enum: bool,
}

/// What a `Container` holds.
pub struct ContainerView {
    pub name: Seq<char>,
    pub level: u8,
    pub members: Seq<MemberView>,
    pub docs: Option<Seq<char>>,
    pub is_enum: bool,
}

/// The views of a list of members.
pub open spec fn member_views(members: Seq<Member>) -> Seq<MemberView> {
    members.map_values(|m: Member| m@)
}

impl View for Container {
    type V = ContainerView;

    open spec fn view(&self) -> ContainerView {
        ContainerView {
            name: self.name@,
            level: self.level,
            members: member_views(self.members@),
            docs: opt_text(self.docs),
            is_enum: self.is_enum,
        }
    }
}

impl Default for Container {
    fn default() -> (c: Container)
        ensures
            c@ == (ContainerView {
                name: Seq::empty(),
                level: 0,
                members: Seq::empty(),
                docs: None,
                is_enum: false,
            }),
    {
        let c = Container {
            name: String::new(),
            level: 0,
            members: Vec::new(),
            docs: None,
            is_enum: false,
        };
        assert(c@.members =~= Seq::empty());
        c
    }
}

/// The views of a list of definitions.
pub open spec fn container_views(containers: Seq<Container>) -> Seq<ContainerView> {
    containers.map_values(|c: Container| c@)
}

/// Some member's type holds `needle`.
pub open spec fn some_type_holds(members: Seq<MemberView>, needle: Seq<char>) -> bool {
    exists|i: int| 0 <= i < members.len() && has_substring((#[trigger] members[i]).type_, needle)
}

impl Container {
    /// Whether some member's type holds `needle`.
    pub fn any_type_holds(&self, needle: &str) -> (r: bool)
        ensures
            r == some_type_holds(self@.members, needle@),
    {
        let mut i: usize = 0;
        while i < self.members.len()
            invariant
                i <= self.members.len(),
                forall|k: int|
                    0 <= k < i ==> !has_substring((#[trigger] self@.members[k]).type_, needle@),
            decreases self.members.len() - i,
        {
            if contains(self.members[i].type_.as_str(), needle) {
                assert(has_substring(self@.members[i as int].type_, needle@));
                return true;
            }
            i += 1;
        }
        false
    }

    /// Whether some member is a `BTreeMap`.
    pub fn uses_btreemaps(&self) -> (r: bool)
        ensures
            r == some_type_holds(self@.members, "BTreeMap"@),
    {
        self.any_type_holds("BTreeMap")
    }

    /// Whether some member is a `HashMap`.
    pub fn uses_hashmaps(&self) -> (r: bool)
        ensures
            r == some_type_holds(self@.members, "HashMap"@),
    {
        self.any_type_holds("HashMap")
    }

    /// Whether some member is a date with a time.
    pub fn uses_datetime(&self) -> (r: bool)
        ensures
            r == some_type_holds(self@.members, "DateTime"@),
    {
        self.any_type_holds("DateTime")
    }

    /// Whether some member is a date.
    pub fn uses_date(&self) -> (r: bool)
        ensures
            r == some_type_holds(self@.members, "NaiveDate"@),
    {
        self.any_type_holds("NaiveDate")
    }

    /// Whether some member is an `IntOrString`.
    pub fn uses_int_or_string(&self) -> (r: bool)
        ensures
            r == some_type_holds(self@.members, "IntOrString"@),
    {
        self.any_type_holds("IntOrString")
    }

    /// Whether this is the definition of the root, which is never written out.
    pub fn is_root(&self) -> (r: bool)
        ensures
            r == (self.level == 0),
    {
        self.level == 0
    }

    /// Whether this is the spec of the resource.
    pub fn is_main_container(&self) -> (r: bool)
        ensures
            r == (self.level == 1 && has_suffix(self.name@, "Spec"@)),
    {
        self.level == 1 && ends_with(self.name.as_str(), "Spec")
    }

    /// Whether this is the status of the resource.
    pub fn is_status_container(&self) -> (r: bool)
        ensures
            r == (self.level == 1 && has_suffix(self.name@, "Status"@)),
    {
        self.level == 1 && ends_with(self.name.as_str(), "Status")
    }

    /// Whether some member is a list of conditions.
    pub fn contains_conditions(&self) -> (r: bool)
        ensures
            r == some_type_holds(self@.members, "Vec<Condition>"@),
    {
        self.any_type_holds("Vec<Condition>")
    }

    /// Whether some member is an object reference.
    pub fn contains_object_ref(&self) -> (r: bool)
        ensures
            r == some_type_holds(self@.members, "ObjectReference"@),
    {
        self.any_type_holds("ObjectReference")
    }
}

/// The catalog holds a definition of the given name.
pub open spec fn holds_name(catalog: Seq<ContainerView>, name: Seq<char>) -> bool {
    exists|i: int| 0 <= i < catalog.len() && (#[trigger] catalog[i]).name == name
}

/// The catalog after `c` was offered to it: a definition whose name the
/// catalog already holds is dropped, any other goes to the end.
pub open spec fn catalog_insert(catalog: Seq<ContainerView>, c: ContainerView) -> Seq<
    ContainerView,
> {
    if holds_name(catalog, c.name) {
        catalog
    } else {
        catalog.push(c)
    }
}

/// The catalog after the definitions of `more` were offered to it in order.
pub open spec fn catalog_extend(catalog: Seq<ContainerView>, more: Seq<ContainerView>) -> Seq<
    ContainerView,
>
    decreases more.len(),
{
    if more.len() == 0 {
        catalog
    } else {
        catalog_insert(catalog_extend(catalog, more.drop_last()), more.last())
    }
}

/// No two definitions of the catalog share a name.
pub open spec fn names_distinct(catalog: Seq<ContainerView>) -> bool {
    forall|i: int, j: int|
        0 <= i < j < catalog.len() ==> (#[trigger] catalog[i]).name != (#[trigger] catalog[j]).name
}

/// Offering a list in two parts is offering it whole.
pub proof fn catalog_extend_concat(
    catalog: Seq<ContainerView>,
    a: Seq<ContainerView>,
    b: Seq<ContainerView>,
)
    ensures
        catalog_extend(catalog, a + b) == catalog_extend(catalog_extend(catalog, a), b),
    decreases b.len(),
{
    if b.len() == 0 {
        assert(a + b =~= a);
    } else {
        assert((a + b).drop_last() =~= a + b.drop_last());
        assert((a + b).last() == b.last());
        catalog_extend_concat(catalog, a, b.drop_last());
    }
}

/// Offering one definition is offering the list that holds only it.
pub proof fn catalog_extend_one(catalog: Seq<ContainerView>, c: ContainerView)
    ensures
        catalog_extend(catalog, seq![c]) == catalog_insert(catalog, c),
{
    assert(seq![c].drop_last() =~= Seq::<ContainerView>::empty());
    assert(catalog_extend(catalog, seq![c].drop_last()) == catalog);
}

/// A definition whose name was offered before is absorbed: after two
/// definitions of one name were offered, the catalog is what it was after
/// the first, and of the same length.
pub proof fn insert_twice_keeps_first(
    catalog: Seq<ContainerView>,
    first: ContainerView,
    second: ContainerView,
)
    requires
        first.name == second.name,
    ensures
        catalog_insert(catalog_insert(catalog, first), second) == catalog_insert(catalog, first),
        catalog_insert(catalog_insert(catalog, first), second).len() == catalog_insert(
            catalog,
            first,
        ).len(),
{
    let once = catalog_insert(catalog, first);
    if holds_name(catalog, first.name) {
    } else {
        assert(once[catalog.len() as int].name == second.name);
    }
}

/// Offering a definition keeps the names of a catalog distinct.
pub proof fn insert_keeps_names_distinct(catalog: Seq<ContainerView>, c: ContainerView)
    requires
        names_distinct(catalog),
    ensures
        names_distinct(catalog_insert(catalog, c)),
{
}

/// Offering definitions to a catalog leaves what it held where it was.
pub proof fn extend_keeps_what_was_held(catalog: Seq<ContainerView>, more: Seq<ContainerView>)
    ensures
        catalog_extend(catalog, more).len() >= catalog.len(),
        catalog_extend(catalog, more).take(catalog.len() as int) == catalog,
    decreases more.len(),
{
    if more.len() > 0 {
        extend_keeps_what_was_held(catalog, more.drop_last());
        let before = catalog_extend(catalog, more.drop_last());
        assert(catalog_insert(before, more.last()).take(catalog.len() as int) =~= before.take(
            catalog.len() as int,
        ));
    } else {
        assert(catalog.take(catalog.len() as int) =~= catalog);
    }
}

/// Offering a list of definitions keeps the names of a catalog distinct.
pub proof fn extend_keeps_names_distinct(catalog: Seq<ContainerView>, more: Seq<ContainerView>)
    requires
        names_distinct(catalog),
    ensures
        names_distinct(catalog_extend(catalog, more)),
    decreases more.len(),
{
    if more.len() > 0 {
        extend_keeps_names_distinct(catalog, more.drop_last());
        insert_keeps_names_distinct(catalog_extend(catalog, more.drop_last()), more.last());
    }
}

/// All definitions that were found, each name once, in the order in which
/// they were found.
#[derive(Debug)]
pub struct Output(pub Vec<Container>);

impl View for Output {
    type V = Seq<ContainerView>;

    open spec fn view(&self) -> Seq<ContainerView> {
        container_views(self.0@)
    }
}

impl Default for Output {
    fn default() -> (out: Output)
        ensures
            out@ == Seq::<ContainerView>::empty(),
    {
        let out = Output(Vec::new());
        assert(out@ =~= Seq::empty());
        out
    }
}

impl Output {
    /// Whether the catalog holds a definition of the given name.
    pub fn holds(&self, name: &str) -> (r: bool)
        ensures
            r == holds_name(self@, name@),
    {
        let mut i: usize = 0;
        while i < self.0.len()
            invariant
                i <= self.0.len(),
                forall|k: int| 0 <= k < i ==> (#[trigger] self@[k]).name != name@,
            decreases self.0.len() - i,
        {
            if str_eq(self.0[i].name.as_str(), name) {
                assert(self@[i as int].name == name@);
                return true;
            }
            i += 1;
        }
        false
    }

    /// Offers a definition to the catalog. The first definition of a name
    /// stays; a later one of the same name is dropped. Returns whether the
    /// definition was added.
    pub fn insert(&mut self, container: Container) -> (added: bool)
        ensures
            final(self)@ == catalog_insert(old(self)@, container@),
            added == !holds_name(old(self)@, container@.name),
    {
        if self.holds(container.name.as_str()) {
            false
        } else {
            self.0.push(container);
            assert(self@ =~= old(self)@.push(container@));
            true
        }
    }

    /// Offers every definition of `other` to the catalog, in order.
    pub fn extend(&mut self, other: Output)
        ensures
            final(self)@ == catalog_extend(old(self)@, other@),
    {
        let ghost start = self@;
        let ghost all = other@;
        for c in it: other.0
            invariant
                all == container_views(it.seq()),
                self@ == catalog_extend(start, all.take(it.index() as int)),
        {
            proof {
                let i = it.index() as int;
                assert(all.take(i + 1).drop_last() =~= all.take(i));
                assert(all.take(i + 1).last() == c@);
            }
            self.insert(c);
        }
        assert(all.take(all.len() as int) =~= all);
    }

    /// The definitions, in order.
    pub fn output(self) -> (list: Vec<Container>)
        ensures
            container_views(list@) == self@,
    {
        self.0
    }
}

} // verus!
