//! The rename pass: every member gets a name that is legal in the generated
//! source and unlike the names of the members before it.
//!
//! A field of a struct is named in snake case, a variant of an enum in Pascal
//! case. The names `-` and `_`, and the empty name of a variant, get a name of
//! their own. A name that is no identifier is escaped; a variant that cannot
//! be escaped is named by its position. A name that an earlier member of the
//! definition already has gets a suffix, again and again until no earlier
//! member has it. A member whose name changed keeps its wire name in a
//! `rename` annotation.

use vstd::prelude::*;
use crate::naming::{is_ident, parses_as_ident, pascal, snake, to_pascal, to_snake};
use crate::output::{member_views, Container, ContainerView, Member, MemberView, Output};
use crate::text::{concat, concat3, decimal, decimal_digits, list_holds, str_eq};
use vstd::string::StringExecFns;

verus! {

/// The name as an identifier: as it stands where it parses as one, else
/// behind `r#`, else behind `r#_`; none where none of the three parses.
pub open spec fn escaped(name: Seq<char>, plain: bool, raw: bool, raw_underscore: bool) -> Option<
    Seq<char>,
> {
    if plain {
        Some(name)
    } else if raw {
        Some("r#"@ + name)
    } else if raw_underscore {
        Some("r#_"@ + name)
    } else {
        None
    }
}

/// The name as an identifier, none where it cannot be escaped.
pub open spec fn escaped_name(name: Seq<char>) -> Option<Seq<char>> {
    escaped(
        name,
        parses_as_ident(name),
        parses_as_ident("r#"@ + name),
        parses_as_ident("r#_"@ + name),
    )
}

/// The name of a variant before it is told apart from earlier ones.
pub open spec fn variant_base(raw: Seq<char>, position: nat) -> Seq<char> {
    let cased = if raw.len() == 0 {
        "KopiumEmpty"@
    } else if raw == "-"@ {
        "KopiumDash"@
    } else if raw == "_"@ {
        "KopiumUnderscore"@
    } else {
        pascal(raw)
    };
    match escaped_name(cased) {
        Some(name) => name,
        None => "KopiumVariant"@ + decimal_digits(position),
    }
}

/// The name of a field before it is told apart from earlier ones, none where
/// the name cannot be escaped.
pub open spec fn field_base(raw: Seq<char>) -> Option<Seq<char>> {
    if raw == "-"@ {
        Some("kopium_dash"@)
    } else if raw == "_"@ {
        Some("kopium_underscore"@)
    } else {
        escaped_name(snake(raw))
    }
}

/// Whether a member can be named.
pub open spec fn can_name(raw: Seq<char>, is_enum: bool) -> bool {
    is_enum || field_base(raw) is Some
}

/// The name of a member before it is told apart from earlier ones.
pub open spec fn base_name(raw: Seq<char>, is_enum: bool, position: nat) -> Seq<char> {
    if is_enum {
        variant_base(raw, position)
    } else {
        field_base(raw)->Some_0
    }
}

/// The suffix that tells a name apart from an earlier one.
pub open spec fn clash_suffix(is_enum: bool) -> Seq<char> {
    if is_enum {
        "X"@
    } else {
        "_x"@
    }
}

/// The length of the longest of the names.
pub open spec fn longest(seen: Seq<Seq<char>>) -> nat
    decreases seen.len(),
{
    if seen.len() == 0 {
        0
    } else if seen.last().len() > longest(seen.drop_last()) {
        seen.last().len()
    } else {
        longest(seen.drop_last())
    }
}

/// No name is longer than the longest.
pub proof fn longest_bounds(seen: Seq<Seq<char>>, name: Seq<char>)
    requires
        seen.contains(name),
    ensures
        name.len() <= longest(seen),
    decreases seen.len(),
{
    if seen.last() != name {
        let i = choose|i: int| 0 <= i < seen.len() && seen[i] == name;
        assert(seen.drop_last()[i] == name);
        longest_bounds(seen.drop_last(), name);
    }
}

/// How far a name is from being too long to be among the names.
pub open spec fn room(name: Seq<char>, seen: Seq<Seq<char>>) -> nat {
    if name.len() <= longest(seen) {
        (longest(seen) - name.len() + 1) as nat
    } else {
        0
    }
}

/// The name, with the suffix added as often as it takes until it is none of
/// the names seen.
pub open spec fn told_apart(name: Seq<char>, seen: Seq<Seq<char>>, suffix: Seq<char>) -> Seq<char>
    decreases room(name, seen),
{
    if seen.contains(name) && suffix.len() > 0 {
        proof {
            longest_bounds(seen, name);
        }
        told_apart(name + suffix, seen, suffix)
    } else {
        name
    }
}

/// The names that the first `n` members get.
pub open spec fn new_names(members: Seq<MemberView>, is_enum: bool, n: int) -> Seq<Seq<char>>
    decreases n,
{
    if n <= 0 {
        Seq::empty()
    } else {
        let before = new_names(members, is_enum, n - 1);
        before.push(
            told_apart(
                base_name(members[n - 1].name, is_enum, (n - 1) as nat),
                before,
                clash_suffix(is_enum),
            ),
        )
    }
}

/// The annotation that keeps the wire name.
pub open spec fn rename_annotation(wire: Seq<char>) -> Seq<char> {
    "rename = \""@ + wire + "\""@
}

/// The member under a new name: unchanged where the name is the old one,
/// else with the wire name kept in an annotation.
pub open spec fn with_name(m: MemberView, name: Seq<char>) -> MemberView {
    if name == m.name {
        m
    } else {
        MemberView {
            name,
            type_: m.type_,
            serde_annot: m.serde_annot.push(rename_annotation(m.name)),
            extra_annot: m.extra_annot,
            docs: m.docs,
        }
    }
}

/// The first `n` members under their new names.
pub open spec fn renamed_members(members: Seq<MemberView>, is_enum: bool, n: int) -> Seq<MemberView> {
    Seq::new(n as nat, |i: int| with_name(members[i], new_names(members, is_enum, i + 1)[i]))
}

/// The definition with every member under its new name.
pub open spec fn renamed(c: ContainerView) -> ContainerView {
    ContainerView {
        name: c.name,
        level: c.level,
        members: renamed_members(c.members, c.is_enum, c.members.len() as int),
        docs: c.docs,
        is_enum: c.is_enum,
    }
}

/// Every member of the definition can be named.
pub open spec fn can_rename(c: ContainerView) -> bool {
    forall|i: int| 0 <= i < c.members.len() ==> can_name((#[trigger] c.members[i]).name, c.is_enum)
}

/// The names of the first `n` members are the first `n` of the names of
/// more members.
pub proof fn new_names_grow(members: Seq<MemberView>, is_enum: bool, n: int, m: int)
    requires
        0 <= n <= m,
    ensures
        new_names(members, is_enum, m).len() == m,
        new_names(members, is_enum, m).take(n) == new_names(members, is_enum, n),
    decreases m,
{
    if m > 0 {
        if n == m {
            new_names_grow(members, is_enum, n - 1, m - 1);
            assert(new_names(members, is_enum, m).take(n) =~= new_names(members, is_enum, n));
        } else {
            new_names_grow(members, is_enum, n, m - 1);
            assert(new_names(members, is_enum, m).take(n) =~= new_names(members, is_enum, m - 1).take(
                n,
            ));
        }
    } else {
        assert(new_names(members, is_enum, m).take(n) =~= new_names(members, is_enum, n));
    }
}

/// A name that was told apart is none of the names seen.
pub proof fn told_apart_is_new(name: Seq<char>, seen: Seq<Seq<char>>, suffix: Seq<char>)
    requires
        suffix.len() > 0,
    ensures
        !seen.contains(told_apart(name, seen, suffix)),
    decreases room(name, seen),
{
    if seen.contains(name) {
        longest_bounds(seen, name);
        told_apart_is_new(name + suffix, seen, suffix);
    }
}

/// The suffix is not empty.
pub proof fn clash_suffix_is_text(is_enum: bool)
    ensures
        clash_suffix(is_enum).len() > 0,
{
    reveal_strlit("X");
    reveal_strlit("_x");
}

/// After the rename pass no two members of a definition share a name.
pub proof fn new_names_differ(members: Seq<MemberView>, is_enum: bool, n: int, i: int, j: int)
    requires
        0 <= i < j < n,
    ensures
        new_names(members, is_enum, n)[i] != new_names(members, is_enum, n)[j],
    decreases n,
{
    let names = new_names(members, is_enum, n);
    let before = new_names(members, is_enum, n - 1);
    new_names_grow(members, is_enum, n - 1, n);
    assert(names.take(n - 1) == before);
    assert(names[i] == names.take(n - 1)[i]);
    if j == n - 1 {
        clash_suffix_is_text(is_enum);
        told_apart_is_new(
            base_name(members[n - 1].name, is_enum, (n - 1) as nat),
            before,
            clash_suffix(is_enum),
        );
        assert(before[i] == names[i]);
    } else {
        assert(names[j] == names.take(n - 1)[j]);
        new_names_differ(members, is_enum, n - 1, i, j);
    }
}

/// The name as an identifier, given which of its three forms parse.
pub fn choose_escape(name: String, plain: bool, raw: bool, raw_underscore: bool) -> (r: Option<
    String,
>)
    ensures
        match r {
            Some(e) => escaped(name@, plain, raw, raw_underscore) == Some(e@),
            None => escaped(name@, plain, raw, raw_underscore) is None,
        },
{
    if plain {
        Some(name)
    } else if raw {
        Some(concat("r#", name.as_str()))
    } else if raw_underscore {
        Some(concat("r#_", name.as_str()))
    } else {
        None
    }
}

/// The name as an identifier, none where it cannot be escaped.
fn try_escape_name(name: String) -> (r: Option<String>)
    ensures
        match r {
            Some(e) => escaped_name(name@) == Some(e@),
            None => escaped_name(name@) is None,
        },
{
    let plain = is_ident(name.as_str());
    let raw_form = concat("r#", name.as_str());
    let raw = is_ident(raw_form.as_str());
    let underscore_form = concat("r#_", name.as_str());
    let raw_underscore = is_ident(underscore_form.as_str());
    choose_escape(name, plain, raw, raw_underscore)
}

/// The name, with the suffix added as often as it takes until it is none of
/// the names seen.
pub fn tell_apart(name: String, seen: &Vec<String>, suffix: &str) -> (r: String)
    ensures
        r@ == told_apart(name@, seen@.map_values(|s: String| s@), suffix@),
{
    if suffix.is_empty() {
        return name;
    }
    let ghost views = seen@.map_values(|s: String| s@);
    let mut current = name;
    while list_holds(seen, current.as_str())
        invariant
            suffix@.len() > 0,
            views == seen@.map_values(|s: String| s@),
            told_apart(current@, views, suffix@) == told_apart(name@, views, suffix@),
        decreases room(current@, views),
    {
        proof {
            longest_bounds(views, current@);
        }
        current.append(suffix);
    }
    current
}

/// The member under a new name: unchanged where the name is the old one,
/// else with the wire name kept in an annotation.
pub fn apply_name(member: Member, name: String) -> (r: Member)
    ensures
        r@ == with_name(member@, name@),
{
    if str_eq(name.as_str(), member.name.as_str()) {
        member
    } else {
        let Member { name: wire, type_, serde_annot, extra_annot, docs } = member;
        let mut annotations = serde_annot;
        let ghost before = annotations@.map_values(|s: String| s@);
        annotations.push(concat3("rename = \"", wire.as_str(), "\""));
        let r = Member { name, type_, serde_annot: annotations, extra_annot, docs };
        assert(r@.serde_annot =~= before.push(rename_annotation(wire@)));
        r
    }
}

/// The name of a variant before it is told apart from earlier ones.
fn variant_base_of(raw: &str, position: usize) -> (r: String)
    ensures
        r@ == variant_base(raw@, position as nat),
{
    let cased = if raw.is_empty() {
        String::from_str("KopiumEmpty")
    } else if str_eq(raw, "-") {
        String::from_str("KopiumDash")
    } else if str_eq(raw, "_") {
        String::from_str("KopiumUnderscore")
    } else {
        to_pascal(raw)
    };
    match try_escape_name(cased) {
        Some(name) => name,
        None => {
            let digits = decimal(position as u64);
            concat("KopiumVariant", digits.as_str())
        },
    }
}

/// The name of a field before it is told apart from earlier ones.
fn field_base_of(raw: &str) -> (r: Option<String>)
    ensures
        match r {
            Some(name) => field_base(raw@) == Some(name@),
            None => field_base(raw@) is None,
        },
{
    if str_eq(raw, "-") {
        Some(String::from_str("kopium_dash"))
    } else if str_eq(raw, "_") {
        Some(String::from_str("kopium_underscore"))
    } else {
        try_escape_name(to_snake(raw))
    }
}

impl Container {
    /// Whether every member can be named: whether `rename` may be called.
    pub fn can_rename(&self) -> (r: bool)
        ensures
            r == can_rename(self@),
    {
        if self.is_enum {
            return true;
        }
        let mut i: usize = 0;
        while i < self.members.len()
            invariant
                i <= self.members.len(),
                !self.is_enum,
                forall|k: int|
                    0 <= k < i ==> can_name((#[trigger] self@.members[k]).name, self.is_enum),
            decreases self.members.len() - i,
        {
            if field_base_of(self.members[i].name.as_str()).is_none() {
                assert(!can_name(self@.members[i as int].name, self.is_enum));
                return false;
            }
            i += 1;
        }
        true
    }

    /// Gives every member its name in the generated source.
    pub fn rename(&mut self)
        requires
            can_rename(old(self)@),
        ensures
            final(self)@ == renamed(old(self)@),
    {
        let ghost start = self@;
        let ghost given = self@.members;
        let is_enum = self.is_enum;
        let suffix = if is_enum {
            "X"
        } else {
            "_x"
        };
        proof {
            clash_suffix_is_text(is_enum);
        }
        let mut old_members: Vec<Member> = Vec::new();
        core::mem::swap(&mut self.members, &mut old_members);
        let mut seen: Vec<String> = Vec::new();
        let mut position: usize = 0;
        let count = old_members.len();
        assert(member_views(self.members@) =~= renamed_members(given, is_enum, 0));
        assert(seen@.map_values(|s: String| s@) =~= new_names(given, is_enum, 0));
        for m in it: old_members
            invariant
                given == member_views(it.seq()),
                given.len() == count,
                position == it.index(),
                is_enum == start.is_enum,
                self.is_enum == is_enum,
                self.name@ == start.name,
                self.level == start.level,
                crate::text::opt_text(self.docs) == start.docs,
                can_rename(start),
                start.members == given,
                suffix@ == clash_suffix(is_enum),
                suffix@.len() > 0,
                seen@.map_values(|s: String| s@) == new_names(given, is_enum, position as int),
                member_views(self.members@) == renamed_members(given, is_enum, position as int),
        {
            let ghost names_before = seen@.map_values(|s: String| s@);
            let ghost members_before = member_views(self.members@);
            assert(given[position as int] == m@);
            let base = if is_enum {
                variant_base_of(m.name.as_str(), position)
            } else {
                assert(can_name(start.members[position as int].name, is_enum));
                match field_base_of(m.name.as_str()) {
                    Some(name) => name,
                    None => String::new(),
                }
            };
            assert(base@ == base_name(m@.name, is_enum, position as nat));
            let name = tell_apart(base, &seen, suffix);
            seen.push(name.clone());
            let renamed = apply_name(m, name);
            self.members.push(renamed);
            proof {
                assert(seen@.map_values(|s: String| s@) =~= names_before.push(name@));
                assert(member_views(self.members@) =~= members_before.push(renamed@));
                assert forall|i: int| 0 <= i < position + 1 implies member_views(self.members@)[i]
                    == renamed_members(given, is_enum, position + 1)[i] by {
                    if i < position {
                        assert(members_before[i] == renamed_members(given, is_enum, position as int)[i]);
                    } else {
                        new_names_grow(given, is_enum, position as int, position as int);
                        assert(new_names(given, is_enum, position + 1) == names_before.push(
                            told_apart(
                                base_name(given[position as int].name, is_enum, position as nat),
                                names_before,
                                clash_suffix(is_enum),
                            ),
                        ));
                        assert(new_names(given, is_enum, position + 1)[position as int] == name@);
                        assert(member_views(self.members@)[i] == renamed@);
                    }
                }
                assert(member_views(self.members@) =~= renamed_members(
                    given,
                    is_enum,
                    position + 1,
                ));
            }
            position += 1;
        }
    }

    /// Gives every member its name in the generated source where every
    /// member can be named, and tells whether it did; a definition with a
    /// member that cannot be named stays as it is.
    pub fn try_rename(&mut self) -> (done: bool)
        ensures
            done == can_rename(old(self)@),
            done ==> final(self)@ == renamed(old(self)@),
            !done ==> final(self)@ == old(self)@,
    {
        if self.can_rename() {
            self.rename();
            true
        } else {
            false
        }
    }
}


/// Every member of every definition of the catalog can be named.
pub open spec fn can_rename_all(catalog: Seq<ContainerView>) -> bool {
    forall|i: int| 0 <= i < catalog.len() ==> can_rename(#[trigger] catalog[i])
}

impl Output {
    /// Whether every member of every definition can be named: whether
    /// `rename` may be called.
    pub fn can_rename(&self) -> (r: bool)
        ensures
            r == can_rename_all(self@),
    {
        let mut i: usize = 0;
        while i < self.0.len()
            invariant
                i <= self.0.len(),
                forall|k: int| 0 <= k < i ==> can_rename(#[trigger] self@[k]),
            decreases self.0.len() - i,
        {
            if !self.0[i].can_rename() {
                assert(!can_rename(self@[i as int]));
                return false;
            }
            i += 1;
        }
        true
    }

    /// Gives every member of every definition its name in the generated
    /// source.
    pub fn rename(self) -> (r: Output)
        requires
            can_rename_all(self@),
        ensures
            r@ == self@.map_values(|c: ContainerView| renamed(c)),
    {
        let ghost start = self@;
        let mut out: Vec<Container> = Vec::new();
        assert(crate::output::container_views(out@) =~= start.take(0).map_values(
            |c: ContainerView| renamed(c),
        ));
        for c in it: self.0
            invariant
                start == crate::output::container_views(it.seq()),
                can_rename_all(start),
                crate::output::container_views(out@) == start.take(it.index() as int).map_values(
                    |c: ContainerView| renamed(c),
                ),
        {
            let ghost before = crate::output::container_views(out@);
            let ghost i = it.index() as int;
            let mut c = c;
            assert(start[i] == c@);
            c.rename();
            out.push(c);
            proof {
                assert(crate::output::container_views(out@) =~= before.push(c@));
                assert(start.take(i + 1).map_values(|c: ContainerView| renamed(c)) =~= before.push(
                    renamed(start[i]),
                ));
            }
        }
        proof {
            assert(start.take(start.len() as int) =~= start);
        }
        Output(out)
    }

    /// Gives every member of every definition its name where every member
    /// can be named; else hands the catalog back as it is.
    pub fn try_rename(self) -> (r: Result<Output, Output>)
        ensures
            match r {
                Ok(done) => can_rename_all(self@) && done@ == self@.map_values(
                    |c: ContainerView| renamed(c),
                ),
                Err(same) => !can_rename_all(self@) && same@ == self@,
            },
    {
        if self.can_rename() {
            Ok(self.rename())
        } else {
            Err(self)
        }
    }
}

} // verus!
