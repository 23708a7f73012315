//! The builder pass: members that may be left out when a value is built get
//! the annotation that says so.

use vstd::prelude::*;
use crate::output::{container_views, member_views, Container, ContainerView, Member, MemberView, Output};
use crate::text::{has_prefix, starts_with};
use vstd::string::StringExecFns;

verus! {

/// The builder annotation for a member of the given type: an optional
/// member defaults to nothing and is set without `Some`, a list or an ordered
/// map defaults to empty; any other member has no annotation.
pub open spec fn builder_annotation(type_: Seq<char>) -> Option<Seq<char>> {
    if has_prefix(type_, "Option<"@) {
        Some("#[builder(default, setter(strip_option))]"@)
    } else if has_prefix(type_, "Vec<"@) || has_prefix(type_, "BTreeMap<"@) {
        Some("#[builder(default)]"@)
    } else {
        None
    }
}

/// The member with its builder annotation.
pub open spec fn with_builder(m: MemberView) -> MemberView {
    match builder_annotation(m.type_) {
        Some(a) => MemberView {
            name: m.name,
            type_: m.type_,
            serde_annot: m.serde_annot,
            extra_annot: m.extra_annot.push(a),
            docs: m.docs,
        },
        None => m,
    }
}

/// The definition with the builder annotations of its members.
pub open spec fn with_builders(c: ContainerView) -> ContainerView {
    ContainerView {
        name: c.name,
        level: c.level,
        members: c.members.map_values(|m: MemberView| with_builder(m)),
        docs: c.docs,
        is_enum: c.is_enum,
    }
}

/// The member with its builder annotation.
fn add_builder(member: Member) -> (r: Member)
    ensures
        r@ == with_builder(member@),
{
    let optional = starts_with(member.type_.as_str(), "Option<");
    let defaulted = !optional && (starts_with(member.type_.as_str(), "Vec<") || starts_with(
        member.type_.as_str(),
        "BTreeMap<",
    ));
    if optional || defaulted {
        let Member { name, type_, serde_annot, extra_annot, docs } = member;
        let mut annotations = extra_annot;
        let ghost before = annotations@.map_values(|s: String| s@);
        if optional {
            annotations.push(String::from_str("#[builder(default, setter(strip_option))]"));
        } else {
            annotations.push(String::from_str("#[builder(default)]"));
        }
        let r = Member { name, type_, serde_annot, extra_annot: annotations, docs };
        assert(r@.extra_annot =~= before.push(builder_annotation(type_@)->Some_0));
        r
    } else {
        member
    }
}

impl Container {
    /// Adds the builder annotations to the members.
    pub fn builder_fields(&mut self)
        ensures
            final(self)@ == with_builders(old(self)@),
    {
        let ghost start = self@;
        let mut old_members: Vec<Member> = Vec::new();
        core::mem::swap(&mut self.members, &mut old_members);
        assert(member_views(self.members@) =~= start.members.take(0).map_values(
            |m: MemberView| with_builder(m),
        ));
        for m in it: old_members
            invariant
                start.members == member_views(it.seq()),
                self.name@ == start.name,
                self.level == start.level,
                self.is_enum == start.is_enum,
                crate::text::opt_text(self.docs) == start.docs,
                member_views(self.members@) == start.members.take(it.index() as int).map_values(
                    |m: MemberView| with_builder(m),
                ),
        {
            let ghost before = member_views(self.members@);
            let ghost i = it.index() as int;
            let built = add_builder(m);
            self.members.push(built);
            proof {
                assert(start.members[i] == m@);
                assert(member_views(self.members@) =~= before.push(built@));
                assert(start.members.take(i + 1).map_values(|m: MemberView| with_builder(m))
                    =~= before.push(with_builder(start.members[i])));
            }
        }
        proof {
            assert(start.members.take(start.members.len() as int) =~= start.members);
        }
    }
}

impl Output {
    /// Adds the builder annotations to the members of every definition,
    /// where `builders` asks for them.
    pub fn builder_fields(self, builders: bool) -> (r: Output)
        ensures
            r@ == if builders {
                self@.map_values(|c: ContainerView| with_builders(c))
            } else {
                self@
            },
    {
        if !builders {
            return self;
        }
        let ghost start = self@;
        let mut out: Vec<Container> = Vec::new();
        assert(container_views(out@) =~= start.take(0).map_values(
            |c: ContainerView| with_builders(c),
        ));
        for c in it: self.0
            invariant
                start == container_views(it.seq()),
                container_views(out@) == start.take(it.index() as int).map_values(
                    |c: ContainerView| with_builders(c),
                ),
        {
            let ghost before = container_views(out@);
            let ghost i = it.index() as int;
            let mut c = c;
            assert(start[i] == c@);
            c.builder_fields();
            out.push(c);
            proof {
                assert(container_views(out@) =~= before.push(c@));
                assert(start.take(i + 1).map_values(|c: ContainerView| with_builders(c))
                    =~= before.push(with_builders(start[i])));
            }
        }
        proof {
            assert(start.take(start.len() as int) =~= start);
        }
        Output(out)
    }
}

} // verus!
