//! Doc comments: how a description is written above a definition or a
//! member.
//!
//! A fenced block of a description is code in any language, or none; in a
//! doc comment it would be compiled as a test. Every fenced block is therefore
//! marked as plain text. Each line of the description then becomes one line
//! of the comment.

use vstd::prelude::*;
use vstd::string::StringExecFns;
use regex::RegexBuilder;
use crate::text::{concat3, replace_all, replaced};

verus! {

/// The text with every match of the pattern replaced as the regex crate
/// replaces it, in swap-greed mode; none where the pattern does not compile.
pub uninterp spec fn lazy_replacement(
    pattern: Seq<char>,
    input: Seq<char>,
    replacement: Seq<char>,
) -> Option<Seq<char>>;

/// `RegexBuilder::build` and `Regex::replace_all` of the regex crate: the
/// pattern is compiled in swap-greed mode, in which the quantifiers take as
/// little as they can, and every match that does not overlap an earlier one
/// is replaced, `$1` in the replacement standing for the first group. None
/// where the pattern does not compile. The result depends on the three texts
/// alone.
#[verifier::external_body]
fn replace_lazily(pattern: &str, input: &str, replacement: &str) -> (r: Option<String>)
    ensures
        match r {
            Some(t) => lazy_replacement(pattern@, input@, replacement@) == Some(t@),
            None => lazy_replacement(pattern@, input@, replacement@) is None,
        },
{
    match RegexBuilder::new(pattern).swap_greed(true).build() {
        Ok(re) => Some(re.replace_all(input, replacement).into_owned()),
        Err(_) => None,
    }
}

/// The pattern of a fenced block: the fence with what follows it on its line,
/// the lines of the block, and the closing fence.
pub open spec fn fence_pattern() -> Seq<char> {
    "```.*\\n([\\s\\S]+)\\n```"@
}

/// What a fenced block is replaced by: the block, fenced as plain text.
pub open spec fn fence_replacement() -> Seq<char> {
    "```text\n$1\n```"@
}

/// The description with its fenced blocks marked as plain text; the
/// description itself where the pattern of a fenced block does not compile.
pub open spec fn fences_marked(input: Seq<char>) -> Seq<char> {
    match lazy_replacement(fence_pattern(), input, fence_replacement()) {
        Some(t) => t,
        None => input,
    }
}

/// The text as a doc comment: every line behind the indent and `/// `.
pub open spec fn doc_comment(indent: Seq<char>, text: Seq<char>) -> Seq<char> {
    indent + "/// "@ + replaced(text, "\n"@, "\n"@ + indent + "/// "@)
}

/// The text as a doc comment: every line behind the indent and `/// `.
pub fn comment_lines(indent: &str, text: &str) -> (r: String)
    ensures
        r@ == doc_comment(indent@, text@),
{
    let lead = concat3("\n", indent, "/// ");
    let body = replace_all(text, "\n", lead.as_str());
    concat3(indent, "/// ", body.as_str())
}

/// The description as a doc comment, its fenced blocks marked as plain
/// text.
pub fn format_docstr(indent: &str, input: &str) -> (r: String)
    ensures
        r@ == doc_comment(indent@, fences_marked(input@)),
{
    match replace_lazily("```.*\\n([\\s\\S]+)\\n```", input, "```text\n$1\n```") {
        Some(cleaned) => comment_lines(indent, cleaned.as_str()),
        None => comment_lines(indent, input),
    }
}

} // verus!
