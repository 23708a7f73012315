//! What generation reads of a custom resource definition, and the choice of
//! the version to generate for.
//!
//! Where no version is asked for, the version of the highest priority is
//! taken, the last of them where several have it. Priority is that of
//! Kubernetes, as the kube crate orders version names by it.

use vstd::prelude::*;
use vstd::string::StringExecFns;
use crate::schema::SchemaNode;
use crate::text::{join, joined, str_eq, texts};

verus! {

/// Whether the kube crate gives the version named `a` a lower priority than
/// the version named `b`.
pub uninterp spec fn ranks_below(a: Seq<char>, b: Seq<char>) -> bool;

/// `Version::parse` and `Version::priority` of the kube crate: each name is
/// read as a version, a name that is no version name as a version of its own
/// kind, and the two are compared by the priority that Kubernetes gives
/// them. The answer depends on the two names alone.
#[verifier::external_body]
fn name_ranks_below(a: &str, b: &str) -> (r: bool)
    ensures
        r == ranks_below(a@, b@),
{
    kube::core::Version::parse(a).priority() < kube::core::Version::parse(b).priority()
}

/// One version of a custom resource definition.
#[derive(Debug)]
pub struct CrdVersion {
    /// The name of the version.
    pub name: String,
    /// Whether the version has a status subresource.
    pub has_status_subresource: bool,
    /// The validation schema of the version.
    pub schema: Option<SchemaNode>,
}

/// A custom resource definition.
#[derive(Debug)]
pub struct Crd {
    /// The name of the definition.
    pub name: String,
    /// The kind of the resources.
    pub kind: String,
    /// The plural name of the resources.
    pub plural: String,
    /// The API group of the resources.
    pub group: String,
    /// The scope of the resources: `Namespaced` or `Cluster`.
    pub scope: String,
    /// The versions, in the order of the definition.
    pub versions: Vec<CrdVersion>,
}

/// Why no version could be chosen.
#[derive(Debug)]
pub enum VersionError {
    /// The definition has no version of the name that was asked for.
    NotFound {
        /// The name that was asked for.
        version: String,
        /// The name of the definition.
        crd: String,
        /// The names of the versions that the definition has, by priority.
        available: String,
    },
    /// The definition has no version at all.
    NoVersions {
        /// The name of the definition.
        crd: String,
    },
}

/// What a `VersionError` holds.
pub enum VersionFailure {
    NotFound { version: Seq<char>, crd: Seq<char>, available: Seq<char> },
    NoVersions { crd: Seq<char> },
}

impl View for VersionError {
    type V = VersionFailure;

    open spec fn view(&self) -> VersionFailure {
        match self {
            VersionError::NotFound { version, crd, available } => VersionFailure::NotFound {
                version: version@,
                crd: crd@,
                available: available@,
            },
            VersionError::NoVersions { crd } => VersionFailure::NoVersions { crd: crd@ },
        }
    }
}

/// What the error says.
pub open spec fn version_failure_message(e: VersionFailure) -> Seq<char> {
    match e {
        VersionFailure::NotFound { version, crd, available } => "Version '"@ + version
            + "' not found in CRD '"@ + crd + "'\navailable versions are '"@ + available + "'"@,
        VersionFailure::NoVersions { crd } => "CRD '"@ + crd + "' has no versions"@,
    }
}

impl VersionError {
    /// What the error says.
    pub fn message(&self) -> (r: String)
        ensures
            r@ == version_failure_message(self@),
    {
        match self {
            VersionError::NotFound { version, crd, available } => {
                let mut r = String::from_str("Version '");
                r.append(version.as_str());
                r.append("' not found in CRD '");
                r.append(crd.as_str());
                r.append("'\navailable versions are '");
                r.append(available.as_str());
                r.append("'");
                r
            },
            VersionError::NoVersions { crd } => {
                let mut r = String::from_str("CRD '");
                r.append(crd.as_str());
                r.append("' has no versions");
                r
            },
        }
    }
}

/// The position of the version of the highest priority among the first `n`,
/// the last where several have it.
pub open spec fn best_upto(versions: Seq<CrdVersion>, n: int) -> int
    decreases n,
{
    if n <= 1 {
        0
    } else {
        let best = best_upto(versions, n - 1);
        if ranks_below(versions[n - 1].name@, versions[best].name@) {
            best
        } else {
            n - 1
        }
    }
}

/// The position of the first version from `from` on that is called `name`.
pub open spec fn first_called(versions: Seq<CrdVersion>, name: Seq<char>, from: int) -> Option<int>
    decreases versions.len() - from,
{
    if from < 0 || from >= versions.len() {
        None
    } else if versions[from].name@ == name {
        Some(from)
    } else {
        first_called(versions, name, from + 1)
    }
}

/// The position where a name goes into a list that is ordered from the
/// highest priority down: before the first name from `from` on whose
/// priority is lower.
pub open spec fn place_for(ranked: Seq<Seq<char>>, name: Seq<char>, from: int) -> int
    decreases ranked.len() - from,
{
    if from < 0 || from >= ranked.len() {
        ranked.len() as int
    } else if ranks_below(ranked[from], name) {
        from
    } else {
        place_for(ranked, name, from + 1)
    }
}

/// The names of the first `n` versions from the highest priority down,
/// names of one priority in the order of the definition.
pub open spec fn ranked_upto(versions: Seq<CrdVersion>, n: int) -> Seq<Seq<char>>
    decreases n,
{
    if n <= 0 {
        Seq::empty()
    } else {
        let before = ranked_upto(versions, n - 1);
        before.insert(place_for(before, versions[n - 1].name@, 0), versions[n - 1].name@)
    }
}

/// The names of the versions from the highest priority down, with commas
/// between them.
pub open spec fn versions_listed(crd: Crd) -> Seq<char> {
    joined(ranked_upto(crd.versions@, crd.versions.len() as int), ", "@)
}

/// The position of the version to generate for, or why there is none.
pub open spec fn version_chosen(crd: Crd, version: Option<Seq<char>>) -> Result<int, VersionFailure> {
    match version {
        Some(name) => match first_called(crd.versions@, name, 0) {
            Some(i) => Ok(i),
            None => Err(
                VersionFailure::NotFound {
                    version: name,
                    crd: crd.name@,
                    available: versions_listed(crd),
                },
            ),
        },
        None => if crd.versions.len() == 0 {
            Err(VersionFailure::NoVersions { crd: crd.name@ })
        } else {
            Ok(best_upto(crd.versions@, crd.versions.len() as int))
        },
    }
}

/// The names of the versions from the highest priority down, with commas
/// between them.
pub fn all_crd_versions(crd: &Crd) -> (r: String)
    ensures
        r@ == versions_listed(*crd),
{
    let mut ranked: Vec<String> = Vec::new();
    let mut n: usize = 0;
    assert(texts(ranked@) =~= ranked_upto(crd.versions@, 0));
    while n < crd.versions.len()
        invariant
            n <= crd.versions.len(),
            texts(ranked@) == ranked_upto(crd.versions@, n as int),
        decreases crd.versions.len() - n,
    {
        let name = crd.versions[n].name.as_str();
        let ghost before = texts(ranked@);
        let mut at: usize = 0;
        while at < ranked.len() && !name_ranks_below(ranked[at].as_str(), name)
            invariant
                at <= ranked.len(),
                before == texts(ranked@),
                place_for(before, name@, 0) == place_for(before, name@, at as int),
            decreases ranked.len() - at,
        {
            at += 1;
        }
        ranked.insert(at, String::from_str(name));
        assert(texts(ranked@) =~= before.insert(at as int, name@));
        n += 1;
    }
    join(&ranked, ", ")
}

/// The version to generate for: the first of the name that is asked for, or
/// else the version of the highest priority.
pub fn find_crd_version<'a>(crd: &'a Crd, version: Option<&str>) -> (r: Result<
    &'a CrdVersion,
    VersionError,
>)
    ensures
        match r {
            Ok(found) => match version_chosen(*crd, named(version)) {
                Ok(i) => 0 <= i < crd.versions.len() && *found == crd.versions@[i],
                Err(_) => false,
            },
            Err(e) => version_chosen(*crd, named(version)) == Err::<int, VersionFailure>(
                e@,
            ),
        },
{
    match version {
        Some(name) => {
            let mut i: usize = 0;
            while i < crd.versions.len()
                invariant
                    i <= crd.versions.len(),
                    version == Some(name),
                    first_called(crd.versions@, name@, 0) == first_called(
                        crd.versions@,
                        name@,
                        i as int,
                    ),
                decreases crd.versions.len() - i,
            {
                if str_eq(crd.versions[i].name.as_str(), name) {
                    return Ok(&crd.versions[i]);
                }
                i += 1;
            }
            Err(
                VersionError::NotFound {
                    version: String::from_str(name),
                    crd: crd.name.clone(),
                    available: all_crd_versions(crd),
                },
            )
        },
        None => {
            if crd.versions.len() == 0 {
                return Err(VersionError::NoVersions { crd: crd.name.clone() });
            }
            let mut best: usize = 0;
            let mut n: usize = 1;
            while n < crd.versions.len()
                invariant
                    1 <= n <= crd.versions.len(),
                    best < n,
                    best == best_upto(crd.versions@, n as int),
                decreases crd.versions.len() - n,
            {
                if !name_ranks_below(
                    crd.versions[n].name.as_str(),
                    crd.versions[best].name.as_str(),
                ) {
                    best = n;
                }
                n += 1;
            }
            Ok(&crd.versions[best])
        },
    }
}

/// The name that is asked for, as a text.
pub open spec fn named(version: Option<&str>) -> Option<Seq<char>> {
    match version {
        Some(name) => Some(name@),
        None => None,
    }
}

} // verus!
