//! Derive directives: a trait to derive on generated definitions, and the
//! definitions that it is meant for.
//!
//! A directive is written as the name of a trait, for every definition, or
//! as a target, `=` and the name of a trait. The target is the name of one
//! definition, or `@struct`, `@enum` or `@enum:simple` (each also in the
//! plural) for all structs, all enums, or all enums whose variants carry
//! nothing.

use vstd::prelude::*;
use vstd::string::StrSliceExecFns;
use vstd::string::StringExecFns;
use crate::output::{Container, ContainerView};
use crate::text::{chars_of, concat3, str_eq};

verus! {

/// The definitions that a trait is derived for.
#[derive(Debug, Clone)]
pub enum Target {
    /// Every definition.
    All,
    /// The definition of this name.
    Type(String),
    /// Every struct.
    Structs,
    /// Every enum, or every enum whose variants carry nothing.
    Enums {
        /// Only enums whose variants carry nothing.
        unit_only: bool,
    },
}

/// What a `Target` holds.
pub enum TargetView {
    All,
    Type(Seq<char>),
    Structs,
    Enums { unit_only: bool },
}

impl View for Target {
    type V = TargetView;

    open spec fn view(&self) -> TargetView {
        match self {
            Target::All => TargetView::All,
            Target::Type(name) => TargetView::Type(name@),
            Target::Structs => TargetView::Structs,
            Target::Enums { unit_only } => TargetView::Enums { unit_only: *unit_only },
        }
    }
}

/// A trait to derive, and the definitions to derive it for.
#[derive(Debug, Clone)]
pub struct Derive {
    /// The definitions to derive the trait for.
    pub target: Target,
    /// The trait to derive.
    pub derived_trait: String,
}

/// What a `Derive` holds.
pub struct DeriveView {
    pub target: TargetView,
    pub derived_trait: Seq<char>,
}

impl View for Derive {
    type V = DeriveView;

    open spec fn view(&self) -> DeriveView {
        DeriveView { target: self.target@, derived_trait: self.derived_trait@ }
    }
}

/// Why a directive could not be read.
#[derive(Debug, Clone)]
pub enum DeriveParseError {
    /// Nothing stands before the `=` of the directive.
    EmptyTarget { value: String },
    /// Nothing stands behind the `=` of the directive.
    EmptyTrait { value: String },
    /// The target begins with `@` and is none of the known ones.
    UnknownTarget { target: String },
}

/// What a `DeriveParseError` holds.
pub enum DeriveFailure {
    EmptyTarget { value: Seq<char> },
    EmptyTrait { value: Seq<char> },
    UnknownTarget { target: Seq<char> },
}

impl View for DeriveParseError {
    type V = DeriveFailure;

    open spec fn view(&self) -> DeriveFailure {
        match self {
            DeriveParseError::EmptyTarget { value } => DeriveFailure::EmptyTarget { value: value@ },
            DeriveParseError::EmptyTrait { value } => DeriveFailure::EmptyTrait { value: value@ },
            DeriveParseError::UnknownTarget { target } => DeriveFailure::UnknownTarget {
                target: target@,
            },
        }
    }
}

/// What the error says.
pub open spec fn failure_message(e: DeriveFailure) -> Seq<char> {
    match e {
        DeriveFailure::EmptyTarget { value } => "derive target cannot be empty in '"@ + value + "'"@,
        DeriveFailure::EmptyTrait { value } => "derived trait cannot be empty in '"@ + value + "'"@,
        DeriveFailure::UnknownTarget { target } => "unknown derive target @"@ + target
            + ", must be one of @struct, @enum, or @enum:simple"@,
    }
}

impl DeriveParseError {
    /// What the error says.
    pub fn message(&self) -> (r: String)
        ensures
            r@ == failure_message(self@),
    {
        match self {
            DeriveParseError::EmptyTarget { value } => concat3(
                "derive target cannot be empty in '",
                value.as_str(),
                "'",
            ),
            DeriveParseError::EmptyTrait { value } => concat3(
                "derived trait cannot be empty in '",
                value.as_str(),
                "'",
            ),
            DeriveParseError::UnknownTarget { target } => concat3(
                "unknown derive target @",
                target.as_str(),
                ", must be one of @struct, @enum, or @enum:simple",
            ),
        }
    }
}

/// Some member carries a type.
pub open spec fn some_member_typed(c: ContainerView) -> bool {
    exists|i: int| 0 <= i < c.members.len() && (#[trigger] c.members[i]).type_.len() > 0
}

/// The trait is derived for the definition.
pub open spec fn applies_to(target: TargetView, c: ContainerView) -> bool {
    match target {
        TargetView::All => true,
        TargetView::Type(name) => c.name == name,
        TargetView::Structs => !c.is_enum,
        TargetView::Enums { unit_only } => c.is_enum && !(unit_only && some_member_typed(c)),
    }
}

/// The position of the first `=` from `from` on, the length where there is
/// none.
pub open spec fn first_equals(text: Seq<char>, from: int) -> int
    decreases text.len() - from,
{
    if from < 0 || from >= text.len() {
        text.len() as int
    } else if text[from] == '=' {
        from
    } else {
        first_equals(text, from + 1)
    }
}

/// The target that a word behind `@` stands for.
pub open spec fn group_target(word: Seq<char>) -> Option<TargetView> {
    if word == "struct"@ || word == "structs"@ {
        Some(TargetView::Structs)
    } else if word == "enum"@ || word == "enums"@ {
        Some(TargetView::Enums { unit_only: false })
    } else if word == "enum:simple"@ || word == "enums:simple"@ {
        Some(TargetView::Enums { unit_only: true })
    } else {
        None
    }
}

/// What a directive says.
pub open spec fn directive(value: Seq<char>) -> Result<DeriveView, DeriveFailure> {
    let at = first_equals(value, 0);
    if at >= value.len() {
        Ok(DeriveView { target: TargetView::All, derived_trait: value })
    } else {
        let target = value.subrange(0, at);
        let derived_trait = value.subrange(at + 1, value.len() as int);
        if target.len() == 0 {
            Err(DeriveFailure::EmptyTarget { value })
        } else if derived_trait.len() == 0 {
            Err(DeriveFailure::EmptyTrait { value })
        } else if target[0] == '@' {
            match group_target(target.subrange(1, target.len() as int)) {
                Some(t) => Ok(DeriveView { target: t, derived_trait }),
                None => Err(
                    DeriveFailure::UnknownTarget { target: target.subrange(1, target.len() as int) },
                ),
            }
        } else {
            Ok(DeriveView { target: TargetView::Type(target), derived_trait })
        }
    }
}

/// The target that a word behind `@` stands for.
fn group_target_of(word: &str) -> (r: Option<Target>)
    ensures
        match r {
            Some(t) => group_target(word@) == Some(t@),
            None => group_target(word@) is None,
        },
{
    if str_eq(word, "struct") || str_eq(word, "structs") {
        Some(Target::Structs)
    } else if str_eq(word, "enum") || str_eq(word, "enums") {
        Some(Target::Enums { unit_only: false })
    } else if str_eq(word, "enum:simple") || str_eq(word, "enums:simple") {
        Some(Target::Enums { unit_only: true })
    } else {
        None
    }
}

impl Derive {
    /// The directive that derives the trait for every definition.
    pub fn all(derived_trait: &str) -> (r: Derive)
        ensures
            r@ == (DeriveView { target: TargetView::All, derived_trait: derived_trait@ }),
    {
        Derive { target: Target::All, derived_trait: String::from_str(derived_trait) }
    }

    /// Whether the trait is derived for the definition.
    pub fn is_applicable_to(&self, s: &Container) -> (r: bool)
        ensures
            r == applies_to(self.target@, s@),
    {
        match &self.target {
            Target::All => true,
            Target::Type(name) => str_eq(s.name.as_str(), name.as_str()),
            Target::Structs => !s.is_enum,
            Target::Enums { unit_only } => {
                if !s.is_enum {
                    return false;
                }
                if !*unit_only {
                    return true;
                }
                let mut i: usize = 0;
                while i < s.members.len()
                    invariant
                        i <= s.members.len(),
                        s.is_enum,
                        self.target@ == (TargetView::Enums { unit_only: true }),
                        forall|k: int| 0 <= k < i ==> (#[trigger] s@.members[k]).type_.len() == 0,
                    decreases s.members.len() - i,
                {
                    if !s.members[i].type_.as_str().is_empty() {
                        assert(s@.members[i as int].type_.len() > 0);
                        return false;
                    }
                    i += 1;
                }
                true
            },
        }
    }

    /// Reads a directive.
    pub fn parse(value: &str) -> (r: Result<Derive, DeriveParseError>)
        ensures
            match r {
                Ok(d) => directive(value@) == Ok::<DeriveView, DeriveFailure>(d@),
                Err(e) => directive(value@) == Err::<DeriveView, DeriveFailure>(e@),
            },
    {
        let chars = chars_of(value);
        let n = chars.len();
        let mut at: usize = 0;
        while at < n && chars[at] != '='
            invariant
                at <= n,
                n == chars.len(),
                chars@ == value@,
                first_equals(value@, 0) == first_equals(value@, at as int),
            decreases n - at,
        {
            at += 1;
        }
        if at >= n {
            return Ok(Derive { target: Target::All, derived_trait: String::from_str(value) });
        }
        let target = value.substring_char(0, at);
        let derived_trait = value.substring_char(at + 1, n);
        if at == 0 {
            return Err(DeriveParseError::EmptyTarget { value: String::from_str(value) });
        }
        if at + 1 == n {
            return Err(DeriveParseError::EmptyTrait { value: String::from_str(value) });
        }
        if chars[0] == '@' {
            let word = value.substring_char(1, at);
            assert(word@ == target@.subrange(1, target@.len() as int));
            match group_target_of(word) {
                Some(t) => Ok(Derive { target: t, derived_trait: String::from_str(derived_trait) }),
                None => Err(DeriveParseError::UnknownTarget { target: String::from_str(word) }),
            }
        } else {
            Ok(
                Derive {
                    target: Target::Type(String::from_str(target)),
                    derived_trait: String::from_str(derived_trait),
                },
            )
        }
    }
}

impl std::str::FromStr for Derive {
    type Err = DeriveParseError;

    fn from_str(value: &str) -> (r: Result<Derive, DeriveParseError>)
        ensures
            match r {
                Ok(d) => directive(value@) == Ok::<DeriveView, DeriveFailure>(d@),
                Err(e) => directive(value@) == Err::<DeriveView, DeriveFailure>(e@),
            },
    {
        Derive::parse(value)
    }
}

impl PartialEq for Target {
    fn eq(&self, other: &Target) -> (r: bool) {
        match (self, other) {
            (Target::All, Target::All) => true,
            (Target::Type(a), Target::Type(b)) => str_eq(a.as_str(), b.as_str()),
            (Target::Structs, Target::Structs) => true,
            (Target::Enums { unit_only: a }, Target::Enums { unit_only: b }) => *a == *b,
            _ => false,
        }
    }
}

impl vstd::std_specs::cmp::PartialEqSpecImpl for Target {
    open spec fn obeys_eq_spec() -> bool {
        true
    }

    open spec fn eq_spec(&self, other: &Target) -> bool {
        self@ == other@
    }
}

impl PartialEq for Derive {
    fn eq(&self, other: &Derive) -> (r: bool) {
        self.target == other.target && str_eq(
            self.derived_trait.as_str(),
            other.derived_trait.as_str(),
        )
    }
}

impl vstd::std_specs::cmp::PartialEqSpecImpl for Derive {
    open spec fn obeys_eq_spec() -> bool {
        true
    }

    open spec fn eq_spec(&self, other: &Derive) -> bool {
        self@ == other@
    }
}

} // verus!
