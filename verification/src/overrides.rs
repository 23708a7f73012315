//! Override rules: each maps the name and schema of a property to an action
//! that takes the place of what analysis would infer for it.
//!
//! A rule names properties exactly or by regular expression, may ask for a
//! schema, and carries an action. A name is matched by a rule that lists it
//! exactly, or whose expressions match it; a rule without any name matches
//! every name. Rules that list a name exactly are looked up first, by that
//! name, and only their schema is tested; where none of them fits, all rules
//! that are not named exactly alone are scanned in order. The first rule that
//! fits gives the action.

use vstd::prelude::*;
use std::rc::Rc;
use regex::RegexSet;
use crate::matching::{
    is_equal, is_exhaustive, is_subset, node_equal, node_exhaustive, node_subset, str_is_in,
    strs_eq, text_in,
};
use crate::schema::SchemaNode;
use crate::text::{opt_text, str_eq, texts};

verus! {

/// The compiled expressions of one rule.
#[verifier::external_type_specification]
#[verifier::external_body]
pub struct ExRegexSet(regex::RegexSet);

/// What went wrong when expressions were compiled.
#[verifier::external_type_specification]
#[verifier::external_body]
pub struct ExRegexError(regex::Error);

/// The expressions that a set was compiled from, in the order given.
pub uninterp spec fn set_patterns(set: regex::RegexSet) -> Seq<Seq<char>>;

/// Whether the set was compiled as `RegexSet::new` compiles: with the options
/// that the regex crate starts from, none of them changed through a builder.
pub uninterp spec fn set_is_plain(set: regex::RegexSet) -> bool;

/// Whether `RegexSet::new` compiles the expressions into one set.
pub uninterp spec fn patterns_compile(patterns: Seq<Seq<char>>) -> bool;

/// Whether the set that `RegexSet::new` compiles from the expressions matches
/// somewhere in `text`.
pub uninterp spec fn patterns_match(patterns: Seq<Seq<char>>, text: Seq<char>) -> bool;

/// `RegexSet::new` of the regex crate compiles the expressions into one set,
/// or returns the first error. Whether it succeeds depends on the expressions
/// alone; the set keeps them in the order given and is compiled with no
/// option changed.
#[verifier::external_body]
fn compile_set(patterns: &Vec<String>) -> (r: Result<RegexSet, regex::Error>)
    ensures
        r is Ok == patterns_compile(texts(patterns@)),
        r is Ok ==> set_patterns(r->Ok_0) == texts(patterns@),
        r is Ok ==> set_is_plain(r->Ok_0),
{
    RegexSet::new(patterns)
}

/// `RegexSet::is_match` of the regex crate tells whether one of the
/// expressions of the set matches somewhere in the text. Of a set that was
/// compiled with no option changed the answer depends on the expressions and
/// the text alone; nothing is said of any other set. A set without
/// expressions matches nothing.
#[verifier::external_body]
fn set_is_match(set: &RegexSet, text: &str) -> (r: bool)
    requires
        set_is_plain(*set),
    ensures
        r == patterns_match(set_patterns(*set), text@),
        set_patterns(*set).len() == 0 ==> !r,
{
    set.is_match(text)
}

/// `RegexSet::is_empty` of the regex crate tells whether the set was made
/// from no expression at all.
#[verifier::external_body]
fn set_is_empty(set: &RegexSet) -> (r: bool)
    ensures
        r == (set_patterns(*set).len() == 0),
{
    set.is_empty()
}

/// `RegexSet::patterns` of the regex crate hands out the expressions that the
/// set was compiled from, in the order given.
#[verifier::external_body]
fn set_pattern_list(set: &RegexSet) -> (r: Vec<String>)
    ensures
        texts(r@) == set_patterns(*set),
{
    set.patterns().to_vec()
}

/// The text that the regex crate gives for one of its errors.
#[verifier::external_body]
fn error_text(error: &regex::Error) -> (r: String) {
    error.to_string()
}

/// std's `Rc::clone` hands out another pointer to the same value.
#[verifier::external_body]
fn share(rule: &Rc<CompiledRule>) -> (r: Rc<CompiledRule>)
    ensures
        r == *rule,
{
    Rc::clone(rule)
}

/// How a rule names a property.
#[derive(Debug)]
pub enum PropertyName {
    /// The property is called exactly this.
    Exact(String),
    /// The name of the property is matched by this regular expression.
    Regex(String),
}

/// The schema that a rule asks for.
#[derive(Debug)]
pub enum PropertySchema {
    /// The property's schema is equal to this one in every compared field.
    Exhaustive(SchemaNode),
    /// The property's schema holds at least what this one holds.
    Subset(SchemaNode),
}

/// What happens to a property that a rule fits.
#[derive(Debug)]
pub enum PropertyAction {
    /// The property gets this type, written as it stands, and nothing is
    /// generated below it.
    Replace(String),
    /// The property is left out.
    Omit,
}

/// A rule as it is written down. `match_name` is read as a set: a name
/// listed twice counts once.
#[derive(Debug)]
pub struct PropertyRule {
    /// The names that the rule is for; none means every name.
    pub match_name: Vec<PropertyName>,
    /// The schema that the rule asks for; none means every schema.
    pub match_schema: Option<PropertySchema>,
    /// The action of the rule.
    pub match_success: PropertyAction,
}

/// The compiled expressions of one rule. The set inside is always one that
/// was compiled from its expressions with no option changed, so what it
/// matches depends on the expressions alone.
#[derive(Debug)]
pub struct Patterns {
    set: RegexSet,
}

impl View for Patterns {
    type V = Seq<Seq<char>>;

    /// The expressions, in the order given.
    closed spec fn view(&self) -> Seq<Seq<char>> {
        set_patterns(self.set)
    }
}

impl Patterns {
    /// The set was compiled with no option changed.
    #[verifier::type_invariant]
    spec fn plain(&self) -> bool {
        set_is_plain(self.set)
    }

    /// Compiles the expressions into one set.
    fn compile(expressions: &Vec<String>) -> (r: Result<Patterns, regex::Error>)
        ensures
            r is Ok == patterns_compile(texts(expressions@)),
            r is Ok ==> r->Ok_0@ == texts(expressions@),
    {
        match compile_set(expressions) {
            Ok(set) => Ok(Patterns { set }),
            Err(e) => Err(e),
        }
    }

    /// Whether there is no expression.
    fn is_empty(&self) -> (r: bool)
        ensures
            r == (self@.len() == 0),
    {
        set_is_empty(&self.set)
    }

    /// Whether one of the expressions matches somewhere in the text.
    fn is_match(&self, text: &str) -> (r: bool)
        ensures
            r == patterns_match(self@, text@),
            self@.len() == 0 ==> !r,
    {
        proof {
            use_type_invariant(self);
        }
        set_is_match(&self.set, text)
    }

    /// The expressions, in the order given.
    fn list(&self) -> (r: Vec<String>)
        ensures
            texts(r@) == self@,
    {
        set_pattern_list(&self.set)
    }
}

/// A rule with its expressions compiled.
#[derive(Debug)]
pub struct CompiledRule {
    /// The compiled expressions of the rule.
    pub patterns: Patterns,
    /// The schema that the rule asks for.
    pub match_schema: Option<PropertySchema>,
    /// The action of the rule.
    pub match_success: PropertyAction,
}

/// An expression of a rule failed to compile.
#[derive(Debug)]
pub struct OverrideCompileError {
    /// The position of the rule among those that were loaded together.
    pub rule: usize,
    /// The expression that does not compile; none where each expression of
    /// the rule compiles alone and all of them together do not.
    pub pattern: Option<String>,
    /// What the regex crate said.
    pub message: String,
}

/// What an error says of where it comes from.
pub struct CompileFailure {
    /// The position of the rule.
    pub rule: int,
    /// The expression that does not compile.
    pub pattern: Option<Seq<char>>,
}

impl View for OverrideCompileError {
    type V = CompileFailure;

    open spec fn view(&self) -> CompileFailure {
        CompileFailure { rule: self.rule as int, pattern: opt_text(self.pattern) }
    }
}

/// The entry names the property exactly.
pub open spec fn is_exact_name(entry: PropertyName, name: Seq<char>) -> bool {
    match entry {
        PropertyName::Exact(s) => s@ == name,
        PropertyName::Regex(_) => false,
    }
}

/// Whether a rule lists `name` exactly.
pub open spec fn lists_exactly(names: Seq<PropertyName>, name: Seq<char>) -> bool {
    exists|i: int| 0 <= i < names.len() && is_exact_name(#[trigger] names[i], name)
}

/// Whether a rule lists some name exactly.
pub open spec fn lists_some_exactly(names: Seq<PropertyName>) -> bool {
    exists|i: int| 0 <= i < names.len() && (#[trigger] names[i]) is Exact
}

/// The regular expressions of a rule, in the order listed.
pub open spec fn regex_names(names: Seq<PropertyName>) -> Seq<Seq<char>>
    decreases names.len(),
{
    if names.len() == 0 {
        Seq::empty()
    } else {
        match names.last() {
            PropertyName::Regex(s) => regex_names(names.drop_last()).push(s@),
            PropertyName::Exact(_) => regex_names(names.drop_last()),
        }
    }
}

/// Whether a rule takes part in the scan: every rule but those that name
/// properties exactly and in no other way.
pub open spec fn is_scanned(rule: PropertyRule) -> bool {
    !(lists_some_exactly(rule.match_name@) && regex_names(rule.match_name@).len() == 0)
}

/// The property's schema is what the rule asks for.
pub open spec fn schema_fits(wanted: Option<PropertySchema>, schema: SchemaNode) -> bool {
    match wanted {
        None => true,
        Some(PropertySchema::Exhaustive(t)) => node_exhaustive(t, schema),
        Some(PropertySchema::Subset(t)) => node_subset(t, schema),
    }
}

/// The rule's expressions are for the name: one of them matches it, or there
/// is none.
pub open spec fn name_fits(rule: CompiledRule, name: Seq<char>) -> bool {
    rule.patterns@.len() == 0 || patterns_match(rule.patterns@, name)
}

/// The action of the first rule from position `from` on whose schema fits.
pub open spec fn first_by_schema(
    rules: Seq<Rc<CompiledRule>>,
    from: int,
    schema: SchemaNode,
) -> Option<PropertyAction>
    decreases rules.len() - from,
{
    if from < 0 || from >= rules.len() {
        None
    } else if schema_fits(rules[from].match_schema, schema) {
        Some(rules[from].match_success)
    } else {
        first_by_schema(rules, from + 1, schema)
    }
}

/// The action of the first rule from position `from` on whose expressions and
/// schema fit.
pub open spec fn first_by_scan(
    rules: Seq<Rc<CompiledRule>>,
    from: int,
    name: Seq<char>,
    schema: SchemaNode,
) -> Option<PropertyAction>
    decreases rules.len() - from,
{
    if from < 0 || from >= rules.len() {
        None
    } else if name_fits(*rules[from], name) && schema_fits(rules[from].match_schema, schema) {
        Some(rules[from].match_success)
    } else {
        first_by_scan(rules, from + 1, name, schema)
    }
}

/// What a compiled rule was made from.
pub open spec fn compiled_from(compiled: CompiledRule, rule: PropertyRule) -> bool {
    &&& compiled.patterns@ == regex_names(rule.match_name@)
    &&& compiled.match_schema == rule.match_schema
    &&& compiled.match_success == rule.match_success
}

/// Each compiled rule was made from the rule at its position.
pub open spec fn all_compiled_from(compiled: Seq<Rc<CompiledRule>>, rules: Seq<PropertyRule>) -> bool {
    &&& compiled.len() == rules.len()
    &&& forall|k: int| 0 <= k < compiled.len() ==> compiled_from(*#[trigger] compiled[k], rules[k])
}

/// The rules that list `name` exactly, in order.
pub open spec fn rules_listing(rules: Seq<PropertyRule>, name: Seq<char>) -> Seq<PropertyRule>
    decreases rules.len(),
{
    if rules.len() == 0 {
        Seq::empty()
    } else if lists_exactly(rules.last().match_name@, name) {
        rules_listing(rules.drop_last(), name).push(rules.last())
    } else {
        rules_listing(rules.drop_last(), name)
    }
}

/// The rules that take part in the scan, in order.
pub open spec fn rules_scanned(rules: Seq<PropertyRule>) -> Seq<PropertyRule>
    decreases rules.len(),
{
    if rules.len() == 0 {
        Seq::empty()
    } else if is_scanned(rules.last()) {
        rules_scanned(rules.drop_last()).push(rules.last())
    } else {
        rules_scanned(rules.drop_last())
    }
}

/// The expressions that do not compile alone, in the order listed, each with
/// the position of the rule.
pub open spec fn broken_alone(names: Seq<Seq<char>>, rule: int) -> Seq<CompileFailure>
    decreases names.len(),
{
    if names.len() == 0 {
        Seq::empty()
    } else if !patterns_compile(seq![names.last()]) {
        broken_alone(names.drop_last(), rule).push(
            CompileFailure { rule, pattern: Some(names.last()) },
        )
    } else {
        broken_alone(names.drop_last(), rule)
    }
}

/// What is reported of one rule: nothing where its expressions compile into
/// one set; else every expression that does not compile alone; and where
/// each of them does, the rule as a whole.
pub open spec fn rule_failures(names: Seq<Seq<char>>, rule: int) -> Seq<CompileFailure> {
    if patterns_compile(names) {
        Seq::empty()
    } else if broken_alone(names, rule).len() == 0 {
        seq![CompileFailure { rule, pattern: None }]
    } else {
        broken_alone(names, rule)
    }
}

/// What is reported of a list of rules: what is reported of each, in the
/// order of the rules.
pub open spec fn rules_failing(rules: Seq<PropertyRule>) -> Seq<CompileFailure>
    decreases rules.len(),
{
    if rules.len() == 0 {
        Seq::empty()
    } else {
        rules_failing(rules.drop_last()) + rule_failures(
            regex_names(rules.last().match_name@),
            rules.len() - 1,
        )
    }
}

/// The rules that are looked up by one exact name.
#[derive(Debug)]
struct Bucket {
    name: String,
    rules: Vec<Rc<CompiledRule>>,
}

/// No two buckets share a name.
spec fn names_differ(index: Seq<Bucket>) -> bool {
    forall|i: int, j: int|
        0 <= i < j < index.len() ==> (#[trigger] index[i]).name@ != (#[trigger] index[j]).name@
}

/// The rules of the bucket called `name`, none where there is no such bucket.
spec fn bucket_of(index: Seq<Bucket>, name: Seq<char>) -> Seq<Rc<CompiledRule>> {
    if exists|k: int| 0 <= k < index.len() && (#[trigger] index[k]).name@ == name {
        let k = choose|k: int| 0 <= k < index.len() && (#[trigger] index[k]).name@ == name;
        index[k].rules@
    } else {
        Seq::empty()
    }
}

/// The bucket at position `k` is the one called by its name.
proof fn bucket_found(index: Seq<Bucket>, k: int)
    requires
        names_differ(index),
        0 <= k < index.len(),
    ensures
        bucket_of(index, index[k].name@) == index[k].rules@,
{
    let name = index[k].name@;
    let c = choose|c: int| 0 <= c < index.len() && (#[trigger] index[c]).name@ == name;
    assert(c == k);
}

/// A set of override rules, ready to be asked.
#[derive(Debug)]
pub struct Overrides {
    /// The rules that list a name exactly, by that name.
    index: Vec<Bucket>,
    /// The rules that are scanned, in order.
    scan: Vec<Rc<CompiledRule>>,
}

impl Default for Overrides {
    fn default() -> (r: Overrides)
        ensures
            r.scanned().len() == 0,
            forall|name: Seq<char>| (#[trigger] r.bucket(name)).len() == 0,
            forall|name: Seq<char>, schema: SchemaNode| r.action_for(name, schema) is None,
    {
        Overrides::empty()
    }
}

impl Overrides {
    /// No two buckets share a name.
    #[verifier::type_invariant]
    spec fn wf(&self) -> bool {
        names_differ(self.index@)
    }

    /// The rules that are looked up by `name`, in order.
    pub closed spec fn bucket(&self, name: Seq<char>) -> Seq<Rc<CompiledRule>> {
        bucket_of(self.index@, name)
    }

    /// The rules that are scanned, in order.
    pub closed spec fn scanned(&self) -> Seq<Rc<CompiledRule>> {
        self.scan@
    }

    /// The action for a property: that of the first rule looked up by its
    /// name whose schema fits, else that of the first scanned rule whose
    /// expressions and schema fit.
    pub open spec fn action_for(&self, name: Seq<char>, schema: SchemaNode) -> Option<
        PropertyAction,
    > {
        match first_by_schema(self.bucket(name), 0, schema) {
            Some(action) => Some(action),
            None => first_by_scan(self.scanned(), 0, name, schema),
        }
    }

    /// A set without rules.
    pub fn empty() -> (r: Overrides)
        ensures
            r.scanned().len() == 0,
            forall|name: Seq<char>| (#[trigger] r.bucket(name)).len() == 0,
            forall|name: Seq<char>, schema: SchemaNode| r.action_for(name, schema) is None,
    {
        Overrides { index: Vec::new(), scan: Vec::new() }
    }

    /// Compiles a list of rules into a set. The expressions of every rule are
    /// compiled, also after one has failed: the set comes out only when all
    /// compile, and else one error for each expression that does not.
    pub fn new(property_rules: Vec<PropertyRule>) -> (r: Result<Overrides, Vec<OverrideCompileError>>)
        ensures
            r is Ok <==> rules_failing(property_rules@).len() == 0,
            match r {
                Ok(o) => {
                    &&& all_compiled_from(o.scanned(), rules_scanned(property_rules@))
                    &&& forall|name: Seq<char>|
                        all_compiled_from(
                            #[trigger] o.bucket(name),
                            rules_listing(property_rules@, name),
                        )
                },
                Err(errors) => failures(errors@) == rules_failing(property_rules@),
            },
    {
        let ghost all = property_rules@;
        let count = property_rules.len();
        assert(all.len() == count);
        let mut errors: Vec<OverrideCompileError> = Vec::new();
        let mut index: Vec<Bucket> = Vec::new();
        let mut scan: Vec<Rc<CompiledRule>> = Vec::new();
        let mut position: usize = 0;
        proof {
            assert(failures(errors@) =~= rules_failing(all.take(0)));
            assert forall|name: Seq<char>|
                all_compiled_from(
                    #[trigger] bucket_of(index@, name),
                    rules_listing(all.take(0), name),
                ) by {}
        }
        for rule in it: property_rules
            invariant
                all == it.seq(),
                all.len() <= usize::MAX,
                position == it.index(),
                names_differ(index@),
                failures(errors@) == rules_failing(all.take(position as int)),
                errors.len() == 0 ==> all_compiled_from(
                    scan@,
                    rules_scanned(all.take(position as int)),
                ),
                errors.len() == 0 ==> forall|name: Seq<char>|
                    all_compiled_from(
                        #[trigger] bucket_of(index@, name),
                        rules_listing(all.take(position as int), name),
                    ),
        {
            let ghost before = all.take(position as int);
            let ghost after = all.take(position + 1);
            let ghost given = rule;
            let ghost old_errors = errors@;
            let ghost old_scan = scan@;
            let ghost old_index = index@;
            proof {
                assert(after.drop_last() =~= before);
                assert(after.last() == given);
            }
            let PropertyRule { match_name, match_schema, match_success } = rule;
            let (exact, regex) = split_names(&match_name);
            match Patterns::compile(&regex) {
                Err(e) => {
                    report_rule(&mut errors, position, &regex, &e);
                    proof {
                        assert(rule_failures(texts(regex@), position as int).len() > 0);
                        assert(failures(errors@).len() == errors.len());
                    }
                },
                Ok(set) => {
                    proof {
                        assert(rules_failing(after) =~= rules_failing(before));
                    }
                    if errors.len() == 0 {
                        let scanned = !(exact.len() > 0 && regex.len() == 0);
                        let compiled = Rc::new(
                            CompiledRule { patterns: set, match_schema, match_success },
                        );
                        assert(compiled_from(*compiled, given));
                        let mut j: usize = 0;
                        while j < exact.len()
                            invariant
                                j <= exact.len(),
                                names_differ(index@),
                                forall|a: int, b: int|
                                    0 <= a < b < exact.len() ==> (#[trigger] exact@[a])@ != (
                                    #[trigger] exact@[b])@,
                                forall|name: Seq<char>|
                                    #[trigger] bucket_of(index@, name) == if named_before(
                                        exact@,
                                        j as int,
                                        name,
                                    ) {
                                        bucket_of(old_index, name).push(compiled)
                                    } else {
                                        bucket_of(old_index, name)
                                    },
                            decreases exact.len() - j,
                        {
                            let ghost previous = index@;
                            let name = exact[j].as_str();
                            add_to_bucket(&mut index, name, share(&compiled));
                            proof {
                                assert(!named_before(exact@, j as int, name@));
                                assert(bucket_of(previous, name@) == bucket_of(old_index, name@));
                                assert forall|other: Seq<char>|
                                    #[trigger] bucket_of(index@, other) == if named_before(
                                        exact@,
                                        j + 1,
                                        other,
                                    ) {
                                        bucket_of(old_index, other).push(compiled)
                                    } else {
                                        bucket_of(old_index, other)
                                    } by {
                                    if other == name@ {
                                        assert(exact@[j as int]@ == other);
                                        assert(named_before(exact@, j + 1, other));
                                    } else {
                                        assert(bucket_of(index@, other) == bucket_of(previous, other));
                                        if named_before(exact@, j as int, other) {
                                            let m = choose|m: int|
                                                0 <= m < j && (#[trigger] exact@[m])@ == other;
                                            assert(named_before(exact@, j + 1, other));
                                        }
                                        if named_before(exact@, j + 1, other) {
                                            let m = choose|m: int|
                                                0 <= m < j + 1 && (#[trigger] exact@[m])@ == other;
                                            assert(m < j);
                                            assert(named_before(exact@, j as int, other));
                                        }
                                    }
                                }
                            }
                            j += 1;
                        }
                        if scanned {
                            scan.push(compiled);
                        }
                        proof {
                            assert(texts(regex@).len() == regex.len());
                            assert(scanned == is_scanned(given));
                            assert forall|name: Seq<char>|
                                all_compiled_from(
                                    #[trigger] bucket_of(index@, name),
                                    rules_listing(after, name),
                                ) by {
                                assert(all_compiled_from(
                                    bucket_of(old_index, name),
                                    rules_listing(before, name),
                                ));
                                assert(text_in(name, exact@) <==> lists_exactly(
                                    given.match_name@,
                                    name,
                                ));
                                if named_before(exact@, exact.len() as int, name) {
                                    let m = choose|m: int|
                                        0 <= m < exact.len() && (#[trigger] exact@[m])@ == name;
                                    assert(text_in(name, exact@));
                                }
                                if text_in(name, exact@) {
                                    let m = choose|m: int|
                                        0 <= m < exact.len() && (#[trigger] exact@[m])@ == name;
                                    assert(named_before(exact@, exact.len() as int, name));
                                }
                            }
                        }
                    }
                },
            }
            position += 1;
        }
        proof {
            assert(all.take(all.len() as int) =~= all);
        }
        if errors.len() == 0 {
            Ok(Overrides { index, scan })
        } else {
            Err(errors)
        }
    }

    /// Takes in the rules of another set. The rules that are looked up by a
    /// name go behind those that this set already looks up by that name; the
    /// scanned rules go behind the scanned rules of this set, and of rules
    /// that are the same and stand next to each other only the first stays.
    pub fn extend(&mut self, other: Overrides)
        ensures
            forall|name: Seq<char>|
                #[trigger] final(self).bucket(name) == old(self).bucket(name) + other.bucket(name),
            final(self).scanned() == without_repeats(old(self).scanned() + other.scanned()),
    {
        proof {
            use_type_invariant(&*self);
            use_type_invariant(&other);
        }
        let mut mine = Overrides::empty();
        core::mem::swap(self, &mut mine);
        let Overrides { index: mut index, scan } = mine;
        let ghost old_index = index@;
        let ghost old_scan = scan@;
        let Overrides { index: other_index, scan: mut other_scan } = other;
        let ghost their_index = other_index@;
        let ghost their_scan = other_scan@;
        let mut k: usize = 0;
        proof {
            assert forall|name: Seq<char>| #[trigger]
                bucket_of(index@, name) == bucket_of(old_index, name) + bucket_of(
                    their_index.take(0),
                    name,
                ) by {
                assert(bucket_of(old_index, name) + Seq::<Rc<CompiledRule>>::empty() =~= bucket_of(
                    old_index,
                    name,
                ));
            }
        }
        while k < other_index.len()
            invariant
                k <= other_index.len(),
                other_index@ == their_index,
                names_differ(their_index),
                names_differ(index@),
                scan@ == old_scan,
                forall|name: Seq<char>| #[trigger]
                    bucket_of(index@, name) == bucket_of(old_index, name) + bucket_of(
                        their_index.take(k as int),
                        name,
                    ),
            decreases other_index.len() - k,
        {
            let bucket = &other_index[k];
            let ghost base = index@;
            append_to_bucket(&mut index, bucket.name.as_str(), &bucket.rules);
            proof {
                assert forall|name: Seq<char>| #[trigger]
                    bucket_of(index@, name) == bucket_of(old_index, name) + bucket_of(
                        their_index.take(k + 1),
                        name,
                    ) by {
                    assert(bucket_of(base, name) == bucket_of(old_index, name) + bucket_of(
                        their_index.take(k as int),
                        name,
                    ));
                    prefix_bucket_step(their_index, k as int, name);
                    if name == bucket.name@ {
                        assert(bucket_of(old_index, name) + Seq::<Rc<CompiledRule>>::empty()
                            + bucket.rules@ =~= bucket_of(old_index, name) + bucket.rules@);
                    }
                }
            }
            k += 1;
        }
        proof {
            assert(their_index.take(their_index.len() as int) =~= their_index);
        }
        let mut combined: Vec<Rc<CompiledRule>> = Vec::new();
        let mut i: usize = 0;
        while i < scan.len()
            invariant
                i <= scan.len(),
                scan@ == old_scan,
                names_differ(index@),
                forall|name: Seq<char>| #[trigger]
                    bucket_of(index@, name) == bucket_of(old_index, name) + bucket_of(
                        their_index,
                        name,
                    ),
                combined@ == old_scan.take(i as int),
            decreases scan.len() - i,
        {
            combined.push(share(&scan[i]));
            assert(old_scan.take(i + 1) =~= old_scan.take(i as int).push(old_scan[i as int]));
            i += 1;
        }
        assert(old_scan.take(old_scan.len() as int) =~= old_scan);
        combined.append(&mut other_scan);
        let ghost all = old_scan + their_scan;
        assert(combined@ =~= all);
        let kept = dedup_rules(combined);
        *self = Overrides { index, scan: kept };
    }

    /// How many rules are scanned.
    pub fn scanned_len(&self) -> (r: usize)
        ensures
            r == self.scanned().len(),
    {
        self.scan.len()
    }

    /// The position of the bucket that is called `name`.
    fn find_bucket(&self, name: &str) -> (r: Option<usize>)
        ensures
            match r {
                Some(k) => k < self.index.len() && self.index[k as int].name@ == name@
                    && self.bucket(name@) == self.index[k as int].rules@,
                None => self.bucket(name@).len() == 0 && forall|k: int|
                    0 <= k < self.index.len() ==> (#[trigger] self.index[k]).name@ != name@,
            },
    {
        proof {
            use_type_invariant(self);
        }
        let mut i: usize = 0;
        while i < self.index.len()
            invariant
                self.wf(),
                i <= self.index.len(),
                forall|k: int| 0 <= k < i ==> (#[trigger] self.index[k]).name@ != name@,
            decreases self.index.len() - i,
        {
            if str_eq(self.index[i].name.as_str(), name) {
                proof {
                    bucket_found(self.index@, i as int);
                }
                return Some(i);
            }
            i += 1;
        }
        None
    }

    /// The action of the first rule that fits the property, if any does.
    pub fn get_property_action(&self, name: &str, schema: &SchemaNode) -> (r: Option<
        &PropertyAction,
    >)
        ensures
            r == match self.action_for(name@, *schema) {
                Some(action) => Some(&action),
                None => None,
            },
    {
        let indexed = match self.find_bucket(name) {
            Some(k) => first_fitting(&self.index[k].rules, schema),
            None => None,
        };
        match indexed {
            Some(action) => Some(action),
            None => first_scanned(&self.scan, name, schema),
        }
    }
}

/// The action of the first rule whose schema fits.
fn first_fitting<'a>(rules: &'a Vec<Rc<CompiledRule>>, schema: &SchemaNode) -> (r: Option<
    &'a PropertyAction,
>)
    ensures
        r == match first_by_schema(rules@, 0, *schema) {
            Some(action) => Some(&action),
            None => None,
        },
{
    let mut i: usize = 0;
    while i < rules.len()
        invariant
            i <= rules.len(),
            first_by_schema(rules@, 0, *schema) == first_by_schema(rules@, i as int, *schema),
        decreases rules.len() - i,
    {
        if fits_schema(&rules[i].match_schema, schema) {
            return Some(&rules[i].match_success);
        }
        i += 1;
    }
    None
}

/// The action of the first rule whose expressions and schema fit.
fn first_scanned<'a>(rules: &'a Vec<Rc<CompiledRule>>, name: &str, schema: &SchemaNode) -> (r:
    Option<&'a PropertyAction>)
    ensures
        r == match first_by_scan(rules@, 0, name@, *schema) {
            Some(action) => Some(&action),
            None => None,
        },
{
    let mut i: usize = 0;
    while i < rules.len()
        invariant
            i <= rules.len(),
            first_by_scan(rules@, 0, name@, *schema) == first_by_scan(
                rules@,
                i as int,
                name@,
                *schema,
            ),
        decreases rules.len() - i,
    {
        let rule = &rules[i];
        if (rule.patterns.is_empty() || rule.patterns.is_match(name)) && fits_schema(
            &rule.match_schema,
            schema,
        ) {
            return Some(&rule.match_success);
        }
        i += 1;
    }
    None
}

/// Whether the property's schema is what the rule asks for.
pub fn fits_schema(wanted: &Option<PropertySchema>, schema: &SchemaNode) -> (r: bool)
    ensures
        r == schema_fits(*wanted, *schema),
{
    match wanted {
        None => true,
        Some(PropertySchema::Exhaustive(t)) => is_exhaustive(t, schema),
        Some(PropertySchema::Subset(t)) => is_subset(t, schema),
    }
}


/// A bucket of another name stays what it was when the index changes only
/// at the bucket called `name`.
proof fn other_buckets_stay(before: Seq<Bucket>, after: Seq<Bucket>, name: Seq<char>, other: Seq<char>)
    requires
        names_differ(before),
        names_differ(after),
        other != name,
        forall|j: int|
            0 <= j < before.len() && (#[trigger] before[j]).name@ != name ==> exists|m: int|
                0 <= m < after.len() && (#[trigger] after[m]).name@ == before[j].name@ && after[m].rules@
                    == before[j].rules@,
        forall|m: int|
            0 <= m < after.len() && (#[trigger] after[m]).name@ != name ==> exists|j: int|
                0 <= j < before.len() && (#[trigger] before[j]).name@ == after[m].name@,
    ensures
        bucket_of(after, other) == bucket_of(before, other),
{
    if exists|k: int| 0 <= k < before.len() && (#[trigger] before[k]).name@ == other {
        let j = choose|k: int| 0 <= k < before.len() && (#[trigger] before[k]).name@ == other;
        bucket_found(before, j);
        let m = choose|m: int|
            0 <= m < after.len() && (#[trigger] after[m]).name@ == before[j].name@ && after[m].rules@
                == before[j].rules@;
        bucket_found(after, m);
    } else {
        if exists|m: int| 0 <= m < after.len() && (#[trigger] after[m]).name@ == other {
            let m = choose|m: int| 0 <= m < after.len() && (#[trigger] after[m]).name@ == other;
            let j = choose|j: int|
                0 <= j < before.len() && (#[trigger] before[j]).name@ == after[m].name@;
            assert(before[j].name@ == other);
        }
    }
}

/// What the first `k + 1` buckets hold under a name: the rules of the bucket
/// at `k` under its own name, and under any other name what the first `k`
/// buckets hold.
proof fn prefix_bucket_step(index: Seq<Bucket>, k: int, name: Seq<char>)
    requires
        names_differ(index),
        0 <= k < index.len(),
    ensures
        name == index[k].name@ ==> bucket_of(index.take(k), name).len() == 0 && bucket_of(
            index.take(k + 1),
            name,
        ) == index[k].rules@,
        name != index[k].name@ ==> bucket_of(index.take(k + 1), name) == bucket_of(
            index.take(k),
            name,
        ),
{
    let done = index.take(k);
    let next = index.take(k + 1);
    assert(names_differ(next));
    assert(names_differ(done));
    assert(next[k] == index[k]);
    if name == index[k].name@ {
        bucket_found(next, k);
        if exists|m: int| 0 <= m < done.len() && (#[trigger] done[m]).name@ == name {
            let m = choose|m: int| 0 <= m < done.len() && (#[trigger] done[m]).name@ == name;
            assert(index[m].name@ != index[k].name@);
        }
    } else {
        assert forall|j: int|
            0 <= j < done.len() && (#[trigger] done[j]).name@ != index[k].name@ implies exists|m: int|
            0 <= m < next.len() && (#[trigger] next[m]).name@ == done[j].name@ && next[m].rules@
                == done[j].rules@ by {
            assert(next[j] == done[j]);
        }
        assert forall|m: int|
            0 <= m < next.len() && (#[trigger] next[m]).name@ != index[k].name@ implies exists|j: int|
            0 <= j < done.len() && (#[trigger] done[j]).name@ == next[m].name@ by {
            assert(m < k);
            assert(done[m] == next[m]);
        }
        other_buckets_stay(done, next, index[k].name@, name);
    }
}

/// Puts the rules behind those of the bucket called `name`.
fn append_to_bucket(index: &mut Vec<Bucket>, name: &str, rules: &Vec<Rc<CompiledRule>>)
    requires
        names_differ(old(index)@),
    ensures
        names_differ(final(index)@),
        bucket_of(final(index)@, name@) == bucket_of(old(index)@, name@) + rules@,
        forall|other: Seq<char>|
            other != name@ ==> #[trigger] bucket_of(final(index)@, other) == bucket_of(
                old(index)@,
                other,
            ),
{
    let ghost base = index@;
    let mut t: usize = 0;
    assert(bucket_of(base, name@) + rules@.take(0) =~= bucket_of(base, name@));
    while t < rules.len()
        invariant
            t <= rules.len(),
            base == old(index)@,
            names_differ(index@),
            bucket_of(index@, name@) == bucket_of(base, name@) + rules@.take(t as int),
            forall|other: Seq<char>|
                other != name@ ==> #[trigger] bucket_of(index@, other) == bucket_of(base, other),
        decreases rules.len() - t,
    {
        let ghost previous = bucket_of(index@, name@);
        add_to_bucket(index, name, share(&rules[t]));
        proof {
            assert(previous.push(rules@[t as int]) =~= bucket_of(base, name@) + rules@.take(t + 1));
        }
        t += 1;
    }
    assert(rules@.take(rules.len() as int) =~= rules@);
}

/// Puts the rule behind those of the bucket called `name`, in a new bucket
/// where there is none.
fn add_to_bucket(index: &mut Vec<Bucket>, name: &str, rule: Rc<CompiledRule>)
    requires
        names_differ(old(index)@),
    ensures
        names_differ(final(index)@),
        bucket_of(final(index)@, name@) == bucket_of(old(index)@, name@).push(rule),
        forall|other: Seq<char>|
            other != name@ ==> #[trigger] bucket_of(final(index)@, other) == bucket_of(
                old(index)@,
                other,
            ),
{
    let ghost before = index@;
    let mut i: usize = 0;
    while i < index.len()
        invariant
            i <= index.len(),
            index@ == before,
            before == old(index)@,
            names_differ(before),
            forall|k: int| 0 <= k < i ==> (#[trigger] index@[k]).name@ != name@,
        decreases index.len() - i,
    {
        if str_eq(index[i].name.as_str(), name) {
            let mut bucket = index.remove(i);
            bucket.rules.push(rule);
            index.push(bucket);
            proof {
                let after = index@;
                let last = after.len() - 1;
                assert(after[last].name@ == name@);
                assert forall|a: int, b: int| 0 <= a < b < after.len() implies (#[trigger] after[a]).name@
                    != (#[trigger] after[b]).name@ by {
                    let x = if a < i { a } else { a + 1 };
                    assert(after[a] == before[x]);
                    if b < last {
                        let y = if b < i { b } else { b + 1 };
                        assert(after[b] == before[y]);
                    } else {
                        assert(before[x].name@ != before[i as int].name@);
                    }
                }
                bucket_found(before, i as int);
                bucket_found(after, last);
                assert forall|other: Seq<char>| other != name@ implies #[trigger] bucket_of(
                    after,
                    other,
                ) == bucket_of(before, other) by {
                    assert forall|j: int|
                        0 <= j < before.len() && (#[trigger] before[j]).name@ != name@ implies exists|
                        m: int,
                    |
                        0 <= m < after.len() && (#[trigger] after[m]).name@ == before[j].name@
                            && after[m].rules@ == before[j].rules@ by {
                        let m = if j < i { j } else { j - 1 };
                        assert(after[m] == before[j]);
                    }
                    assert forall|m: int|
                        0 <= m < after.len() && (#[trigger] after[m]).name@ != name@ implies exists|
                        j: int,
                    | 0 <= j < before.len() && (#[trigger] before[j]).name@ == after[m].name@ by {
                        let j = if m < i { m } else { m + 1 };
                        assert(after[m] == before[j]);
                    }
                    other_buckets_stay(before, after, name@, other);
                }
            }
            return;
        }
        i += 1;
    }
    let mut rules: Vec<Rc<CompiledRule>> = Vec::new();
    rules.push(rule);
    index.push(Bucket { name: String::from_str(name), rules });
    proof {
        let after = index@;
        let last = after.len() - 1;
        assert(names_differ(after));
        bucket_found(after, last);
        assert(bucket_of(before, name@) =~= Seq::empty());
        assert(after[last].rules@ =~= Seq::<Rc<CompiledRule>>::empty().push(rule));
        assert forall|other: Seq<char>| other != name@ implies #[trigger] bucket_of(after, other)
            == bucket_of(before, other) by {
            assert forall|j: int|
                0 <= j < before.len() && (#[trigger] before[j]).name@ != name@ implies exists|m: int|
                0 <= m < after.len() && (#[trigger] after[m]).name@ == before[j].name@
                    && after[m].rules@ == before[j].rules@ by {
                assert(after[j] == before[j]);
            }
            assert forall|m: int|
                0 <= m < after.len() && (#[trigger] after[m]).name@ != name@ implies exists|j: int|
                0 <= j < before.len() && (#[trigger] before[j]).name@ == after[m].name@ by {
                assert(after[m] == before[m]);
            }
            other_buckets_stay(before, after, name@, other);
        }
    }
}


/// One of the first `j` texts is `name`.
pub open spec fn named_before(list: Seq<String>, j: int, name: Seq<char>) -> bool {
    exists|m: int| 0 <= m < j && (#[trigger] list[m])@ == name
}

/// What the errors say of where they come from.
pub open spec fn failures(errors: Seq<OverrideCompileError>) -> Seq<CompileFailure> {
    errors.map_values(|e: OverrideCompileError| e@)
}

/// Puts behind the errors what is reported of a rule whose expressions do
/// not compile into one set: each expression is compiled alone, and every one
/// that fails is reported with what the regex crate said of it. Where none
/// fails alone, the rule is reported with what was said of the whole set.
fn report_rule(
    errors: &mut Vec<OverrideCompileError>,
    rule: usize,
    expressions: &Vec<String>,
    whole: &regex::Error,
)
    requires
        !patterns_compile(texts(expressions@)),
    ensures
        failures(final(errors)@) == failures(old(errors)@) + rule_failures(
            texts(expressions@),
            rule as int,
        ),
{
    let ghost before = errors@;
    let ghost names = texts(expressions@);
    let mut found = false;
    let mut k: usize = 0;
    proof {
        assert(failures(errors@) =~= failures(before) + broken_alone(names.take(0), rule as int));
    }
    while k < expressions.len()
        invariant
            k <= expressions.len(),
            names == texts(expressions@),
            found == (broken_alone(names.take(k as int), rule as int).len() > 0),
            failures(errors@) == failures(before) + broken_alone(names.take(k as int), rule as int),
        decreases expressions.len() - k,
    {
        let ghost seen = errors@;
        let mut alone: Vec<String> = Vec::new();
        alone.push(expressions[k].clone());
        proof {
            assert(names.take(k + 1).drop_last() =~= names.take(k as int));
            assert(names.take(k + 1).last() == expressions@[k as int]@);
            assert(texts(alone@) =~= seq![expressions@[k as int]@]);
        }
        match compile_set(&alone) {
            Err(e) => {
                errors.push(
                    OverrideCompileError {
                        rule,
                        pattern: Some(expressions[k].clone()),
                        message: error_text(&e),
                    },
                );
                found = true;
                proof {
                    assert(failures(errors@) =~= failures(seen).push(
                        CompileFailure { rule: rule as int, pattern: Some(expressions@[k as int]@) },
                    ));
                    assert(failures(errors@) =~= failures(before) + broken_alone(
                        names.take(k + 1),
                        rule as int,
                    ));
                }
            },
            Ok(_) => {},
        }
        k += 1;
    }
    proof {
        assert(names.take(expressions.len() as int) =~= names);
    }
    if !found {
        let ghost seen = errors@;
        errors.push(OverrideCompileError { rule, pattern: None, message: error_text(whole) });
        proof {
            assert(failures(errors@) =~= failures(seen) + seq![
                CompileFailure { rule: rule as int, pattern: None },
            ]);
        }
    }
}

/// Every rule compiles exactly when no position fails.
pub proof fn none_failing_means_all_compile(rules: Seq<PropertyRule>)
    ensures
        rules_failing(rules).len() == 0 <==> forall|i: int|
            0 <= i < rules.len() ==> patterns_compile(
                regex_names((#[trigger] rules[i]).match_name@),
            ),
    decreases rules.len(),
{
    if rules.len() > 0 {
        none_failing_means_all_compile(rules.drop_last());
        let rest = rules.drop_last();
        if rules_failing(rules).len() == 0 {
            assert forall|i: int| 0 <= i < rules.len() implies patterns_compile(
                regex_names((#[trigger] rules[i]).match_name@),
            ) by {
                if i < rules.len() - 1 {
                    assert(rest[i] == rules[i]);
                }
            }
        }
        if forall|i: int|
            0 <= i < rules.len() ==> patterns_compile(
                regex_names((#[trigger] rules[i]).match_name@),
            ) {
            assert forall|i: int| 0 <= i < rest.len() implies patterns_compile(
                regex_names((#[trigger] rest[i]).match_name@),
            ) by {
                assert(rest[i] == rules[i]);
            }
            assert(patterns_compile(regex_names(rules.last().match_name@)));
        }
    }
}

/// The names of a rule in two lists: those listed exactly, each once, and
/// the regular expressions in the order listed.
fn split_names(names: &Vec<PropertyName>) -> (r: (Vec<String>, Vec<String>))
    ensures
        forall|name: Seq<char>| #[trigger] text_in(name, r.0@) <==> lists_exactly(names@, name),
        forall|a: int, b: int| 0 <= a < b < r.0.len() ==> (#[trigger] r.0@[a])@ != (#[trigger] r.0@[b])@,
        (r.0.len() > 0) == lists_some_exactly(names@),
        texts(r.1@) == regex_names(names@),
{
    let mut exact: Vec<String> = Vec::new();
    let mut regex: Vec<String> = Vec::new();
    let mut i: usize = 0;
    assert(texts(regex@) =~= regex_names(names@.take(0)));
    while i < names.len()
        invariant
            i <= names.len(),
            forall|a: int, b: int|
                0 <= a < b < exact.len() ==> (#[trigger] exact@[a])@ != (#[trigger] exact@[b])@,
            forall|name: Seq<char>| #[trigger]
                text_in(name, exact@) <==> lists_exactly(names@.take(i as int), name),
            (exact.len() > 0) == lists_some_exactly(names@.take(i as int)),
            texts(regex@) == regex_names(names@.take(i as int)),
        decreases names.len() - i,
    {
        let ghost before = names@.take(i as int);
        let ghost after = names@.take(i + 1);
        let ghost old_exact = exact@;
        proof {
            assert(after.drop_last() =~= before);
            assert(after.last() == names@[i as int]);
        }
        match &names[i] {
            PropertyName::Exact(s) => {
                let known = str_is_in(s.as_str(), &exact);
                if !known {
                    exact.push(s.clone());
                }
                proof {
                    assert(after[i as int] is Exact);
                    assert(lists_some_exactly(after));
                    assert forall|name: Seq<char>| #[trigger]
                        text_in(name, exact@) <==> lists_exactly(after, name) by {
                        if text_in(name, exact@) {
                            let j = choose|j: int| 0 <= j < exact.len() && (#[trigger] exact@[j])@ == name;
                            if j < old_exact.len() {
                                assert(old_exact[j] == exact@[j]);
                                assert(text_in(name, old_exact));
                                let k = choose|k: int|
                                    0 <= k < before.len() && is_exact_name(#[trigger] before[k], name);
                                assert(after[k] == before[k]);
                            } else {
                                assert(is_exact_name(after[i as int], name));
                            }
                        }
                        if lists_exactly(after, name) {
                            let k = choose|k: int|
                                0 <= k < after.len() && is_exact_name(#[trigger] after[k], name);
                            if k < i {
                                assert(before[k] == after[k]);
                                assert(lists_exactly(before, name));
                                assert(text_in(name, old_exact));
                                let j = choose|j: int|
                                    0 <= j < old_exact.len() && (#[trigger] old_exact[j])@ == name;
                                assert(exact@[j] == old_exact[j]);
                            } else {
                                assert(name == s@);
                                if known {
                                    let j = choose|j: int|
                                        0 <= j < old_exact.len() && (#[trigger] old_exact[j])@ == name;
                                    assert(exact@[j] == old_exact[j]);
                                } else {
                                    assert(exact@[old_exact.len() as int]@ == name);
                                }
                            }
                        }
                    }
                }
            },
            PropertyName::Regex(s) => {
                regex.push(s.clone());
                proof {
                    assert(texts(regex@) =~= regex_names(before).push(s@));
                    assert forall|name: Seq<char>| #[trigger]
                        text_in(name, exact@) <==> lists_exactly(after, name) by {
                        assert(text_in(name, old_exact) <==> lists_exactly(before, name));
                        if lists_exactly(before, name) {
                            let k = choose|k: int|
                                0 <= k < before.len() && is_exact_name(#[trigger] before[k], name);
                            assert(after[k] == before[k]);
                        }
                        if lists_exactly(after, name) {
                            let k = choose|k: int|
                                0 <= k < after.len() && is_exact_name(#[trigger] after[k], name);
                            assert(before[k] == after[k]);
                        }
                    }
                    if lists_some_exactly(before) {
                        let k = choose|k: int| 0 <= k < before.len() && (#[trigger] before[k]) is Exact;
                        assert(after[k] == before[k]);
                    }
                    if lists_some_exactly(after) {
                        let k = choose|k: int| 0 <= k < after.len() && (#[trigger] after[k]) is Exact;
                        assert(before[k] == after[k]);
                    }
                }
            },
        }
        i += 1;
    }
    assert(names@.take(names.len() as int) =~= names@);
    (exact, regex)
}


/// Two rules ask for the same schema.
pub open spec fn same_schema(a: Option<PropertySchema>, b: Option<PropertySchema>) -> bool {
    match (a, b) {
        (None, None) => true,
        (Some(PropertySchema::Exhaustive(x)), Some(PropertySchema::Exhaustive(y))) => node_equal(
            x,
            y,
        ),
        (Some(PropertySchema::Subset(x)), Some(PropertySchema::Subset(y))) => node_equal(x, y),
        _ => false,
    }
}

/// Two actions are the same.
pub open spec fn same_action(a: PropertyAction, b: PropertyAction) -> bool {
    match (a, b) {
        (PropertyAction::Replace(x), PropertyAction::Replace(y)) => x@ == y@,
        (PropertyAction::Omit, PropertyAction::Omit) => true,
        _ => false,
    }
}

/// Two compiled rules are the same: the same expressions in the same order,
/// the same schema, the same action.
pub open spec fn same_rule(a: CompiledRule, b: CompiledRule) -> bool {
    &&& a.patterns@ == b.patterns@
    &&& same_schema(a.match_schema, b.match_schema)
    &&& same_action(a.match_success, b.match_success)
}

/// The rules without those that are the same as the rule kept just before
/// them.
pub open spec fn without_repeats(rules: Seq<Rc<CompiledRule>>) -> Seq<Rc<CompiledRule>>
    decreases rules.len(),
{
    if rules.len() == 0 {
        Seq::empty()
    } else {
        let kept = without_repeats(rules.drop_last());
        if kept.len() > 0 && same_rule(*kept.last(), *rules.last()) {
            kept
        } else {
            kept.push(rules.last())
        }
    }
}

/// Whether two compiled rules are the same.
fn rules_are_same(a: &CompiledRule, b: &CompiledRule) -> (r: bool)
    ensures
        r == same_rule(*a, *b),
{
    let x = a.patterns.list();
    let y = b.patterns.list();
    if !strs_eq(&x, &y) {
        return false;
    }
    let schemas = match (&a.match_schema, &b.match_schema) {
        (None, None) => true,
        (Some(PropertySchema::Exhaustive(x)), Some(PropertySchema::Exhaustive(y))) => is_equal(x, y),
        (Some(PropertySchema::Subset(x)), Some(PropertySchema::Subset(y))) => is_equal(x, y),
        _ => false,
    };
    if !schemas {
        return false;
    }
    match (&a.match_success, &b.match_success) {
        (PropertyAction::Replace(x), PropertyAction::Replace(y)) => str_eq(x.as_str(), y.as_str()),
        (PropertyAction::Omit, PropertyAction::Omit) => true,
        _ => false,
    }
}

/// The rules without those that are the same as the rule kept just before
/// them.
fn dedup_rules(rules: Vec<Rc<CompiledRule>>) -> (kept: Vec<Rc<CompiledRule>>)
    ensures
        kept@ == without_repeats(rules@),
{
    let ghost all = rules@;
    let mut kept: Vec<Rc<CompiledRule>> = Vec::new();
    for rule in it: rules
        invariant
            all == it.seq(),
            kept@ == without_repeats(all.take(it.index() as int)),
    {
        proof {
            let i = it.index() as int;
            assert(all.take(i + 1).drop_last() =~= all.take(i));
            assert(all.take(i + 1).last() == rule);
        }
        let repeated = kept.len() > 0 && rules_are_same(&kept[kept.len() - 1], &rule);
        if !repeated {
            kept.push(rule);
        }
    }
    assert(all.take(all.len() as int) =~= all);
    kept
}


/// The schema is what the rule at position `i` asks for.
pub open spec fn fits_at(rules: Seq<Rc<CompiledRule>>, i: int, schema: SchemaNode) -> bool {
    schema_fits(rules[i].match_schema, schema)
}

/// Where some rule from position `from` on fits the schema, the first that
/// does gives the action.
pub proof fn first_by_schema_finds(
    rules: Seq<Rc<CompiledRule>>,
    from: int,
    schema: SchemaNode,
    k: int,
)
    requires
        0 <= from <= k < rules.len(),
        schema_fits(rules[k].match_schema, schema),
    ensures
        exists|j: int|
            from <= j <= k && schema_fits((#[trigger] rules[j]).match_schema, schema)
                && first_by_schema(rules, from, schema) == Some(rules[j].match_success),
    decreases k - from,
{
    if fits_at(rules, from, schema) {
    } else {
        first_by_schema_finds(rules, from + 1, schema, k);
    }
}

/// A rule that lists a name exactly is among the rules looked up by that
/// name.
pub proof fn listed_rule_is_looked_up(rules: Seq<PropertyRule>, name: Seq<char>, k: int)
    requires
        0 <= k < rules.len(),
        lists_exactly(rules[k].match_name@, name),
    ensures
        exists|p: int|
            0 <= p < rules_listing(rules, name).len() && #[trigger] rules_listing(rules, name)[p]
                == rules[k],
    decreases rules.len(),
{
    let rest = rules.drop_last();
    if k == rules.len() - 1 {
        let p = rules_listing(rest, name).len() as int;
        assert(rules_listing(rules, name)[p] == rules[k]);
    } else {
        assert(rest[k] == rules[k]);
        listed_rule_is_looked_up(rest, name, k);
        let p = choose|p: int|
            0 <= p < rules_listing(rest, name).len() && #[trigger] rules_listing(rest, name)[p]
                == rest[k];
        assert(rules_listing(rules, name)[p] == rules[k]);
    }
}

/// Every rule that is looked up by a name lists that name exactly.
pub proof fn looked_up_rule_is_listed(rules: Seq<PropertyRule>, name: Seq<char>, p: int)
    requires
        0 <= p < rules_listing(rules, name).len(),
    ensures
        lists_exactly(rules_listing(rules, name)[p].match_name@, name),
    decreases rules.len(),
{
    if rules.len() > 0 {
        let rest = rules.drop_last();
        if p < rules_listing(rest, name).len() {
            looked_up_rule_is_listed(rest, name, p);
        }
    }
}

/// A rule that lists a property's name exactly and whose schema fits takes
/// effect whatever the regular expressions of any rule say: the action for
/// the property is that of a rule that lists the name exactly and whose
/// schema fits.
pub proof fn exact_name_takes_effect(
    o: Overrides,
    rules: Seq<PropertyRule>,
    name: Seq<char>,
    schema: SchemaNode,
    k: int,
)
    requires
        all_compiled_from(o.bucket(name), rules_listing(rules, name)),
        0 <= k < rules.len(),
        lists_exactly(rules[k].match_name@, name),
        schema_fits(rules[k].match_schema, schema),
    ensures
        o.action_for(name, schema) == first_by_schema(o.bucket(name), 0, schema),
        exists|j: int|
            0 <= j < rules.len() && lists_exactly((#[trigger] rules[j]).match_name@, name)
                && schema_fits(rules[j].match_schema, schema) && o.action_for(name, schema) == Some(
                rules[j].match_success,
            ),
{
    let listed = rules_listing(rules, name);
    let bucket = o.bucket(name);
    listed_rule_is_looked_up(rules, name, k);
    let p = choose|p: int| 0 <= p < listed.len() && #[trigger] listed[p] == rules[k];
    assert(compiled_from(*bucket[p], listed[p]));
    first_by_schema_finds(bucket, 0, schema, p);
    let q = choose|q: int|
        0 <= q <= p && schema_fits((#[trigger] bucket[q]).match_schema, schema) && first_by_schema(
            bucket,
            0,
            schema,
        ) == Some(bucket[q].match_success);
    assert(compiled_from(*bucket[q], listed[q]));
    looked_up_rule_is_listed(rules, name, q);
    listing_comes_from_rules(rules, name, q);
}

/// Every rule that is looked up by a name is one of the rules.
pub proof fn listing_comes_from_rules(rules: Seq<PropertyRule>, name: Seq<char>, p: int)
    requires
        0 <= p < rules_listing(rules, name).len(),
    ensures
        exists|j: int| 0 <= j < rules.len() && #[trigger] rules[j] == rules_listing(rules, name)[p],
    decreases rules.len(),
{
    if rules.len() > 0 {
        let rest = rules.drop_last();
        if p < rules_listing(rest, name).len() {
            listing_comes_from_rules(rest, name, p);
            let j = choose|j: int| 0 <= j < rest.len() && #[trigger] rest[j] == rules_listing(rest, name)[p];
            assert(rules[j] == rest[j]);
        } else {
            assert(rules[rules.len() - 1] == rules_listing(rules, name)[p]);
        }
    }
}


/// The rule at position `i` fits the property.
pub open spec fn scan_fits_at(
    rules: Seq<Rc<CompiledRule>>,
    i: int,
    name: Seq<char>,
    schema: SchemaNode,
) -> bool {
    name_fits(*rules[i], name) && schema_fits(rules[i].match_schema, schema)
}

/// The action of the rule at position `i`.
pub open spec fn action_at(rules: Seq<Rc<CompiledRule>>, i: int) -> PropertyAction {
    rules[i].match_success
}

/// The schema that the rule at position `i` asks for.
pub open spec fn schema_at(rules: Seq<Rc<CompiledRule>>, i: int) -> Option<PropertySchema> {
    rules[i].match_schema
}

/// The rules at the two positions are the same.
pub open spec fn same_at(
    rules: Seq<Rc<CompiledRule>>,
    i: int,
    others: Seq<Rc<CompiledRule>>,
    j: int,
) -> bool {
    same_rule(*rules[i], *others[j])
}

/// Rules that are the same fit the same properties.
pub proof fn same_rules_fit_alike(
    rules: Seq<Rc<CompiledRule>>,
    i: int,
    others: Seq<Rc<CompiledRule>>,
    j: int,
    name: Seq<char>,
    schema: SchemaNode,
)
    requires
        0 <= i < rules.len(),
        0 <= j < others.len(),
        same_at(rules, i, others, j),
    ensures
        scan_fits_at(rules, i, name, schema) == scan_fits_at(others, j, name, schema),
{
    match (schema_at(rules, i), schema_at(others, j)) {
        (Some(PropertySchema::Exhaustive(x)), Some(PropertySchema::Exhaustive(y))) => {
            crate::alike::node_alike(x, y, schema);
        },
        (Some(PropertySchema::Subset(x)), Some(PropertySchema::Subset(y))) => {
            crate::alike::node_alike(x, y, schema);
        },
        _ => {},
    }
}

/// The scan from a position finds nothing exactly when no rule from that
/// position on fits.
pub proof fn scan_finds_nothing(
    rules: Seq<Rc<CompiledRule>>,
    from: int,
    name: Seq<char>,
    schema: SchemaNode,
)
    requires
        0 <= from,
    ensures
        first_by_scan(rules, from, name, schema) is None <==> forall|i: int|
            from <= i < rules.len() ==> !#[trigger] scan_fits_at(rules, i, name, schema),
    decreases rules.len() - from,
{
    if from < rules.len() {
        scan_finds_nothing(rules, from + 1, name, schema);
        if !scan_fits_at(rules, from, name, schema) {
            assert forall|i: int| from <= i < rules.len() && (forall|k: int|
                from + 1 <= k < rules.len() ==> !#[trigger] scan_fits_at(
                    rules,
                    k,
                    name,
                    schema,
                )) implies !#[trigger] scan_fits_at(rules, i, name, schema) by {}
        }
    }
}

/// The scan of a list with one rule more: what the scan of the list finds,
/// else the action of the rule where it fits.
pub proof fn scan_of_longer_list(
    rules: Seq<Rc<CompiledRule>>,
    last: Rc<CompiledRule>,
    from: int,
    name: Seq<char>,
    schema: SchemaNode,
)
    requires
        0 <= from <= rules.len(),
    ensures
        first_by_scan(rules.push(last), from, name, schema) == match first_by_scan(
            rules,
            from,
            name,
            schema,
        ) {
            Some(action) => Some(action),
            None => if scan_fits_at(rules.push(last), rules.len() as int, name, schema) {
                Some(last.match_success)
            } else {
                None
            },
        },
    decreases rules.len() - from,
{
    let longer = rules.push(last);
    if from < rules.len() {
        assert(longer[from] == rules[from]);
        scan_of_longer_list(rules, last, from + 1, name, schema);
    } else {
        assert(longer[from] == last);
        assert(first_by_scan(longer, from + 1, name, schema) is None);
    }
}

/// Dropping the rules that repeat the rule kept before them changes no
/// answer of the scan: it finds the action of the same rule.
pub proof fn repeats_change_no_answer(rules: Seq<Rc<CompiledRule>>, name: Seq<char>, schema: SchemaNode)
    ensures
        first_by_scan(without_repeats(rules), 0, name, schema) == first_by_scan(
            rules,
            0,
            name,
            schema,
        ),
    decreases rules.len(),
{
    if rules.len() > 0 {
        let rest = rules.drop_last();
        let last = rules.last();
        let kept = without_repeats(rest);
        repeats_change_no_answer(rest, name, schema);
        assert(rules =~= rest.push(last));
        scan_of_longer_list(rest, last, 0, name, schema);
        if kept.len() > 0 && same_at(kept, kept.len() - 1, rules, rules.len() - 1) {
            scan_finds_nothing(kept, 0, name, schema);
            same_rules_fit_alike(
                kept,
                kept.len() - 1,
                rest.push(last),
                rest.len() as int,
                name,
                schema,
            );
            if first_by_scan(rest, 0, name, schema) is None {
                assert(!scan_fits_at(kept, kept.len() - 1, name, schema));
            }
        } else {
            scan_of_longer_list(kept, last, 0, name, schema);
            assert(scan_fits_at(kept.push(last), kept.len() as int, name, schema) == scan_fits_at(
                rest.push(last),
                rest.len() as int,
                name,
                schema,
            ));
        }
    }
}


/// The first of two answers that is one.
pub open spec fn or_else(first: Option<PropertyAction>, second: Option<PropertyAction>) -> Option<
    PropertyAction,
> {
    match first {
        Some(action) => Some(action),
        None => second,
    }
}

/// Looking up two lists in a row is looking up the first and, where it has
/// no answer, the second.
pub proof fn lookup_of_lists_in_a_row(
    a: Seq<Rc<CompiledRule>>,
    b: Seq<Rc<CompiledRule>>,
    from: int,
    schema: SchemaNode,
)
    requires
        0 <= from <= a.len(),
    ensures
        first_by_schema(a + b, from, schema) == or_else(
            first_by_schema(a, from, schema),
            first_by_schema(b, 0, schema),
        ),
    decreases a.len() - from,
{
    if from < a.len() {
        assert((a + b)[from] == a[from]);
        lookup_of_lists_in_a_row(a, b, from + 1, schema);
    } else {
        lookup_of_shifted_list(a, b, 0, schema);
    }
}

/// Looking up a list behind another from the end of that other is looking
/// up the list itself.
pub proof fn lookup_of_shifted_list(
    a: Seq<Rc<CompiledRule>>,
    b: Seq<Rc<CompiledRule>>,
    k: int,
    schema: SchemaNode,
)
    requires
        0 <= k <= b.len(),
    ensures
        first_by_schema(a + b, a.len() + k, schema) == first_by_schema(b, k, schema),
    decreases b.len() - k,
{
    if k < b.len() {
        assert((a + b)[a.len() + k] == b[k]);
        lookup_of_shifted_list(a, b, k + 1, schema);
    }
}

/// Scanning two lists in a row is scanning the first and, where it has no
/// answer, the second.
pub proof fn scan_of_lists_in_a_row(
    a: Seq<Rc<CompiledRule>>,
    b: Seq<Rc<CompiledRule>>,
    from: int,
    name: Seq<char>,
    schema: SchemaNode,
)
    requires
        0 <= from <= a.len(),
    ensures
        first_by_scan(a + b, from, name, schema) == or_else(
            first_by_scan(a, from, name, schema),
            first_by_scan(b, 0, name, schema),
        ),
    decreases a.len() - from,
{
    if from < a.len() {
        assert((a + b)[from] == a[from]);
        scan_of_lists_in_a_row(a, b, from + 1, name, schema);
    } else {
        scan_of_shifted_list(a, b, 0, name, schema);
    }
}

/// Scanning a list behind another from the end of that other is scanning
/// the list itself.
pub proof fn scan_of_shifted_list(
    a: Seq<Rc<CompiledRule>>,
    b: Seq<Rc<CompiledRule>>,
    k: int,
    name: Seq<char>,
    schema: SchemaNode,
)
    requires
        0 <= k <= b.len(),
    ensures
        first_by_scan(a + b, a.len() + k, name, schema) == first_by_scan(b, k, name, schema),
    decreases b.len() - k,
{
    if k < b.len() {
        assert((a + b)[a.len() + k] == b[k]);
        scan_of_shifted_list(a, b, k + 1, name, schema);
    }
}

/// What a set answers after it took in another: the rules that list the
/// name exactly are asked first, those of the set before those of the other,
/// and then the scanned rules in the same order.
pub proof fn extended_set_answers(
    before: Overrides,
    other: Overrides,
    after: Overrides,
    name: Seq<char>,
    schema: SchemaNode,
)
    requires
        after.bucket(name) == before.bucket(name) + other.bucket(name),
        after.scanned() == without_repeats(before.scanned() + other.scanned()),
    ensures
        after.action_for(name, schema) == or_else(
            first_by_schema(before.bucket(name), 0, schema),
            or_else(
                first_by_schema(other.bucket(name), 0, schema),
                or_else(
                    first_by_scan(before.scanned(), 0, name, schema),
                    first_by_scan(other.scanned(), 0, name, schema),
                ),
            ),
        ),
{
    lookup_of_lists_in_a_row(before.bucket(name), other.bucket(name), 0, schema);
    repeats_change_no_answer(before.scanned() + other.scanned(), name, schema);
    scan_of_lists_in_a_row(before.scanned(), other.scanned(), 0, name, schema);
}

} // verus!
