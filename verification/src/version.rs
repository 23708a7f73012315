//! Versions of an API as Kubernetes names them: `v1`, `v2beta1`, `v1alpha3`.
//!
//! A version name is `v` and a number, and may go on with `alpha` or `beta`
//! and, behind that, a second number. Which texts are version names is
//! written down as a regular expression, and the regex crate matches it; a
//! digit of the expression is any decimal digit of Unicode, while a number is
//! read from the ten digits `0` to `9` alone. Every other text is a version
//! of its own kind. Versions are ordered by their maturity: any other text
//! first, then alpha, beta and general availability, each by its numbers.

use vstd::prelude::*;
use vstd::string::StringExecFns;
use regex::Regex;
use crate::text::{chars_of, opt_text, str_eq};

verus! {

/// A version.
#[derive(Clone, Debug, PartialEq, Eq, PartialOrd, Ord, Hash)]
pub enum Version {
    /// A text that is no version name.
    Other(String),
    /// An alpha version: the major number, and the number of the alpha.
    Alpha(u64, Option<u64>),
    /// A beta version: the major number, and the number of the beta.
    Beta(u64, Option<u64>),
    /// A version in general availability.
    Ga(u64),
}

/// What a `Version` holds.
pub enum VersionView {
    Other(Seq<char>),
    Alpha(u64, Option<u64>),
    Beta(u64, Option<u64>),
    Ga(u64),
}

impl View for Version {
    type V = VersionView;

    open spec fn view(&self) -> VersionView {
        match self {
            Version::Other(text) => VersionView::Other(text@),
            Version::Alpha(major, minor) => VersionView::Alpha(*major, *minor),
            Version::Beta(major, minor) => VersionView::Beta(*major, *minor),
            Version::Ga(major) => VersionView::Ga(*major),
        }
    }
}

/// The major number of a version name is too large.
#[derive(Clone, Copy, Debug, PartialEq, Eq, Structural)]
pub struct VersionParseError;

/// The character is one of the ten digits.
pub open spec fn is_digit(c: char) -> bool {
    '0' <= c && c <= '9'
}

/// The value of a digit.
pub open spec fn digit_value(c: char) -> nat {
    (c as nat - '0' as nat) as nat
}

/// Every character of the text is a digit.
pub open spec fn all_digits(text: Seq<char>) -> bool {
    forall|i: int| 0 <= i < text.len() ==> is_digit(#[trigger] text[i])
}

/// The number that the digits write.
pub open spec fn number_of(digits: Seq<char>) -> nat
    decreases digits.len(),
{
    if digits.len() == 0 {
        0
    } else {
        number_of(digits.drop_last()) * 10 + digit_value(digits.last())
    }
}

/// The number that the text writes, where it is made of digits, has one at
/// least, and the number is no larger than the largest `u64`.
pub open spec fn small_number(text: Seq<char>) -> Option<u64> {
    if text.len() > 0 && all_digits(text) && number_of(text) <= u64::MAX {
        Some(number_of(text) as u64)
    } else {
        None
    }
}

/// What the groups of the first match of a pattern in a text hold, the whole
/// match first: for each group its text, none for a group that took no part
/// in the match. None at all where the pattern does not compile or matches
/// nowhere in the text.
pub uninterp spec fn groups_of(pattern: Seq<char>, text: Seq<char>) -> Option<Seq<Option<Seq<char>>>>;

/// The texts of the groups.
pub open spec fn group_texts(groups: Seq<Option<String>>) -> Seq<Option<Seq<char>>> {
    groups.map_values(|g: Option<String>| opt_text(g))
}

/// `Regex::new` and `Regex::captures` of the regex crate: the pattern is
/// compiled and the groups of its first match in the text are handed out, the
/// whole match first, each as its text or as none where it took no part.
/// None where the pattern does not compile or does not match. The result
/// depends on the two texts alone.
#[verifier::external_body]
fn match_groups(pattern: &str, text: &str) -> (r: Option<Vec<Option<String>>>)
    ensures
        match r {
            Some(groups) => groups_of(pattern@, text@) == Some(group_texts(groups@)),
            None => groups_of(pattern@, text@) is None,
        },
{
    match Regex::new(pattern) {
        Ok(re) => match re.captures(text) {
            Some(found) => Some(found.iter().map(|g| g.map(|m| m.as_str().to_string())).collect()),
            None => None,
        },
        Err(_) => None,
    }
}

/// The expression that matches a version name. Its first group is the major
/// number, its second `alpha` or `beta`, its third the number behind that.
pub open spec fn version_pattern() -> Seq<char> {
    "^v([\\d]+)(?:(alpha|beta)([\\d]*))?$"@
}

/// The text of the group at position `at`, empty where the group took no
/// part in the match or there is no such group.
pub open spec fn group_text(groups: Seq<Option<Seq<char>>>, at: int) -> Seq<char> {
    if 0 <= at < groups.len() {
        match groups[at] {
            Some(t) => t,
            None => Seq::empty(),
        }
    } else {
        Seq::empty()
    }
}

/// Whether the group at position `at` took part in the match.
pub open spec fn has_group(groups: Seq<Option<Seq<char>>>, at: int) -> bool {
    0 <= at < groups.len() && groups[at] is Some
}

/// What a text says as a version, given the groups of the match of the
/// version expression in it. Without a match the text is a version of its
/// own kind. With one, a major number that cannot be read is an error, and a
/// number of the alpha or beta that cannot be read counts as absent.
pub open spec fn version_from(text: Seq<char>, groups: Option<Seq<Option<Seq<char>>>>) -> Result<
    VersionView,
    VersionParseError,
> {
    match groups {
        None => Ok(VersionView::Other(text)),
        Some(g) => match small_number(group_text(g, 1)) {
            None => Err(VersionParseError),
            Some(major) => if !has_group(g, 2) {
                Ok(VersionView::Ga(major))
            } else if group_text(g, 2) == "alpha"@ {
                Ok(VersionView::Alpha(major, small_number(group_text(g, 3))))
            } else {
                Ok(VersionView::Beta(major, small_number(group_text(g, 3))))
            },
        },
    }
}

/// What a text says as a version.
pub open spec fn version_of(text: Seq<char>) -> Result<VersionView, VersionParseError> {
    version_from(text, groups_of(version_pattern(), text))
}

/// The groups as texts.
pub open spec fn groups_view(groups: Option<Vec<Option<String>>>) -> Option<Seq<Option<Seq<char>>>> {
    match groups {
        Some(g) => Some(group_texts(g@)),
        None => None,
    }
}

/// The value of a character that is a digit.
fn digit_of_char(c: char) -> (r: Option<u64>)
    ensures
        match r {
            Some(d) => is_digit(c) && d == digit_value(c) && d < 10,
            None => !is_digit(c),
        },
{
    if c == '0' {
        Some(0)
    } else if c == '1' {
        Some(1)
    } else if c == '2' {
        Some(2)
    } else if c == '3' {
        Some(3)
    } else if c == '4' {
        Some(4)
    } else if c == '5' {
        Some(5)
    } else if c == '6' {
        Some(6)
    } else if c == '7' {
        Some(7)
    } else if c == '8' {
        Some(8)
    } else if c == '9' {
        Some(9)
    } else {
        None
    }
}

/// A longer run of digits writes no smaller number.
pub proof fn number_grows(digits: Seq<char>, k: int)
    requires
        0 <= k <= digits.len(),
    ensures
        number_of(digits.subrange(0, k)) <= number_of(digits),
    decreases digits.len() - k,
{
    if k < digits.len() {
        number_grows(digits.drop_last(), k);
        assert(digits.drop_last().subrange(0, k) =~= digits.subrange(0, k));
    } else {
        assert(digits.subrange(0, k) =~= digits);
    }
}

/// The number that the text writes: none where the text is empty, holds
/// anything but the ten digits, or writes a number that is too large.
pub fn read_number(text: &str) -> (r: Option<u64>)
    ensures
        r == small_number(text@),
{
    let chars = chars_of(text);
    if chars.len() == 0 {
        return None;
    }
    let mut value: u64 = 0;
    let mut i: usize = 0;
    assert(chars@.subrange(0, 0) =~= Seq::<char>::empty());
    while i < chars.len()
        invariant
            i <= chars.len(),
            chars@ == text@,
            all_digits(chars@.subrange(0, i as int)),
            value == number_of(chars@.subrange(0, i as int)),
        decreases chars.len() - i,
    {
        let ghost done = chars@.subrange(0, i as int);
        let ghost next = chars@.subrange(0, i + 1);
        proof {
            assert(next.drop_last() =~= done);
            assert(next.last() == chars@[i as int]);
            number_grows(chars@, i + 1);
        }
        match digit_of_char(chars[i]) {
            None => {
                return None;
            },
            Some(d) => {
                if value > (u64::MAX - d) / 10 {
                    assert(number_of(next) > u64::MAX);
                    return None;
                }
                value = value * 10 + d;
                assert forall|k: int| 0 <= k < next.len() implies is_digit(#[trigger] next[k]) by {
                    if k < i {
                        assert(next[k] == done[k]);
                    }
                }
            },
        }
        i += 1;
    }
    assert(chars@.subrange(0, chars.len() as int) =~= chars@);
    Some(value)
}

/// The text of the group at position `at`, empty where there is none.
fn text_of_group(groups: &Vec<Option<String>>, at: usize) -> (r: &str)
    ensures
        r@ == group_text(group_texts(groups@), at as int),
{
    if at < groups.len() {
        match &groups[at] {
            Some(t) => t.as_str(),
            None => {
                proof {
                    reveal_strlit("");
                }
                ""
            },
        }
    } else {
        proof {
            reveal_strlit("");
        }
        ""
    }
}

impl Version {
    /// Reads a version from a text and the groups of the match of the
    /// version expression in it.
    pub fn from_groups(text: &str, groups: &Option<Vec<Option<String>>>) -> (r: Result<
        Version,
        VersionParseError,
    >)
        ensures
            match r {
                Ok(v) => version_from(text@, groups_view(*groups)) == Ok::<
                    VersionView,
                    VersionParseError,
                >(v@),
                Err(e) => version_from(text@, groups_view(*groups)) == Err::<
                    VersionView,
                    VersionParseError,
                >(e),
            },
    {
        match groups {
            None => Ok(Version::Other(String::from_str(text))),
            Some(g) => {
                let major = match read_number(text_of_group(g, 1)) {
                    Some(major) => major,
                    None => {
                        return Err(VersionParseError);
                    },
                };
                let named = 2 < g.len() && g[2].is_some();
                if !named {
                    return Ok(Version::Ga(major));
                }
                let minor = read_number(text_of_group(g, 3));
                if str_eq(text_of_group(g, 2), "alpha") {
                    Ok(Version::Alpha(major, minor))
                } else {
                    Ok(Version::Beta(major, minor))
                }
            },
        }
    }

    /// Reads a version.
    pub fn parse(text: &str) -> (r: Result<Version, VersionParseError>)
        ensures
            match r {
                Ok(v) => version_of(text@) == Ok::<VersionView, VersionParseError>(v@),
                Err(e) => version_of(text@) == Err::<VersionView, VersionParseError>(e),
            },
    {
        let groups = match_groups("^v([\\d]+)(?:(alpha|beta)([\\d]*))?$", text);
        Version::from_groups(text, &groups)
    }
}

impl std::str::FromStr for Version {
    type Err = VersionParseError;

    fn from_str(text: &str) -> (r: Result<Version, VersionParseError>)
        ensures
            match r {
                Ok(v) => version_of(text@) == Ok::<VersionView, VersionParseError>(v@),
                Err(e) => version_of(text@) == Err::<VersionView, VersionParseError>(e),
            },
    {
        Version::parse(text)
    }
}

} // verus!
