//! Names in the spelling of the generated source: case conversion and the
//! test for a legal identifier.

use vstd::prelude::*;
use heck::{ToPascalCase, ToSnakeCase, ToUpperCamelCase};

verus! {

/// The text in upper camel case.
pub uninterp spec fn upper_camel(text: Seq<char>) -> Seq<char>;

/// The text in Pascal case.
pub uninterp spec fn pascal(text: Seq<char>) -> Seq<char>;

/// The text in snake case.
pub uninterp spec fn snake(text: Seq<char>) -> Seq<char>;

/// Whether the text parses as a single identifier.
pub uninterp spec fn parses_as_ident(text: Seq<char>) -> bool;

/// Whether the character has the Unicode property `Uppercase`.
pub uninterp spec fn is_uppercase(c: char) -> bool;

/// std's `char::is_uppercase` tells whether the character has the Unicode
/// property `Uppercase`.
#[verifier::external_body]
pub(crate) fn char_is_uppercase(c: char) -> (r: bool)
    ensures
        r == is_uppercase(c),
{
    c.is_uppercase()
}

/// `to_upper_camel_case` of the heck crate: the words of the text, each
/// capitalised, in a row. The result depends on the text alone.
#[verifier::external_body]
pub(crate) fn to_upper_camel(text: &str) -> (r: String)
    ensures
        r@ == upper_camel(text@),
{
    text.to_upper_camel_case()
}

/// `to_pascal_case` of the heck crate. The result depends on the text alone.
#[verifier::external_body]
pub(crate) fn to_pascal(text: &str) -> (r: String)
    ensures
        r@ == pascal(text@),
{
    text.to_pascal_case()
}

/// `to_snake_case` of the heck crate: the words of the text in lower case,
/// joined by underscores. The result depends on the text alone.
#[verifier::external_body]
pub(crate) fn to_snake(text: &str) -> (r: String)
    ensures
        r@ == snake(text@),
{
    text.to_snake_case()
}

/// `parse_str` of the syn crate, asked for an `Ident`: whether the whole text
/// parses as one identifier that is no keyword. The answer depends on the
/// text alone.
#[verifier::external_body]
pub(crate) fn is_ident(text: &str) -> (r: bool)
    ensures
        r == parses_as_ident(text@),
{
    syn::parse_str::<syn::Ident>(text).is_ok()
}

} // verus!
