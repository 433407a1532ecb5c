//! Semantic versions and version requirements.
//!
//! Both are kept as the text they were parsed from; parsing, ordering and
//! requirement matching are those of the `semver` crate.

use vstd::prelude::*;

verus! {

/// Whether `semver::Version::parse` accepts the text.
pub uninterp spec fn semver_valid(s: Seq<char>) -> bool;

/// Whether `semver::VersionReq::parse` accepts the text.
pub uninterp spec fn requirement_valid(s: Seq<char>) -> bool;

/// The sign (-1, 0 or 1) of `semver::Version::cmp` on two valid version texts.
pub uninterp spec fn precedence(a: Seq<char>, b: Seq<char>) -> int;

/// What `semver::VersionReq::matches` says of a valid requirement text and a
/// valid version text.
pub uninterp spec fn req_admits(req: Seq<char>, v: Seq<char>) -> bool;

/// Relies on `semver::Version::parse`: whether the text is a version.
#[verifier::external_body]
fn parses_as_version(s: &str) -> (r: bool)
    ensures
        r == semver_valid(s@),
{
    semver::Version::parse(s).is_ok()
}

/// Relies on `semver::VersionReq::parse`: whether the text is a requirement.
#[verifier::external_body]
fn parses_as_requirement(s: &str) -> (r: bool)
    ensures
        r == requirement_valid(s@),
{
    semver::VersionReq::parse(s).is_ok()
}

/// A semantic version, held as the text of a valid `semver` version.
#[derive(Debug)]
pub struct Version {
    text: String,
}

impl View for Version {
    type V = Seq<char>;

    closed spec fn view(&self) -> Seq<char> {
        self.text@
    }
}

impl Version {
    #[verifier::type_invariant]
    spec fn valid(&self) -> bool {
        semver_valid(self.text@)
    }

    /// Parses a version; `None` where `semver` refuses the text.
    pub fn parse(s: &str) -> (r: Option<Version>)
        ensures
            r.is_some() == semver_valid(s@),
            r matches Some(v) ==> v@ == s@,
    {
        if parses_as_version(s) {
            Some(Version { text: s.to_string() })
        } else {
            None
        }
    }

    /// The text of the version.
    pub fn as_str(&self) -> (r: &str)
        ensures
            r@ == self@,
    {
        self.text.as_str()
    }

    /// Whether two versions are written the same way.
    pub fn same(&self, other: &Version) -> (r: bool)
        ensures
            r == (self@ == other@),
    {
        self.text == other.text
    }

    /// A copy of the version.
    pub fn duplicate(&self) -> (r: Version)
        ensures
            r == *self,
    {
        proof {
            use_type_invariant(self);
        }
        Version { text: self.text.clone() }
    }

    /// Compares the precedence of two versions: -1, 0 or 1.
    pub fn compare(&self, other: &Version) -> (r: i8)
        ensures
            r as int == precedence(self@, other@),
            -1 <= r <= 1,
    {
        proof {
            use_type_invariant(self);
            use_type_invariant(other);
        }
        compare_texts(&self.text, &other.text)
    }
}

/// Relies on `semver::Version::cmp`: the order of two parsed versions.
#[verifier::external_body]
fn compare_texts(a: &String, b: &String) -> (r: i8)
    requires
        semver_valid(a@),
        semver_valid(b@),
    ensures
        r as int == precedence(a@, b@),
        -1 <= r <= 1,
{
    match (semver::Version::parse(a), semver::Version::parse(b)) {
        (Ok(x), Ok(y)) => match x.cmp(&y) {
            std::cmp::Ordering::Less => -1,
            std::cmp::Ordering::Equal => 0,
            std::cmp::Ordering::Greater => 1,
        },
        _ => 0,
    }
}

/// A version requirement (`^1.0`, `>=2, <3`), held as the text of a valid
/// `semver` requirement.
#[derive(Debug)]
pub struct VersionRequirement {
    text: String,
}

impl View for VersionRequirement {
    type V = Seq<char>;

    closed spec fn view(&self) -> Seq<char> {
        self.text@
    }
}

impl VersionRequirement {
    #[verifier::type_invariant]
    spec fn valid(&self) -> bool {
        requirement_valid(self.text@)
    }

    /// Parses a requirement; `None` where `semver` refuses the text.
    pub fn parse(s: &str) -> (r: Option<VersionRequirement>)
        ensures
            r.is_some() == requirement_valid(s@),
            r matches Some(q) ==> q@ == s@,
    {
        if parses_as_requirement(s) {
            Some(VersionRequirement { text: s.to_string() })
        } else {
            None
        }
    }

    /// The text of the requirement.
    pub fn as_str(&self) -> (r: &str)
        ensures
            r@ == self@,
    {
        self.text.as_str()
    }

    /// Whether the version satisfies the requirement.
    pub fn matches(&self, v: &Version) -> (r: bool)
        ensures
            r == req_admits(self@, v@),
    {
        proof {
            use_type_invariant(self);
            use_type_invariant(v);
        }
        admits(&self.text, &v.text)
    }
}

/// Relies on `semver::VersionReq::matches`: whether a version satisfies a
/// requirement.
#[verifier::external_body]
fn admits(req: &String, v: &String) -> (r: bool)
    requires
        requirement_valid(req@),
        semver_valid(v@),
    ensures
        r == req_admits(req@, v@),
{
    match (semver::VersionReq::parse(req), semver::Version::parse(v)) {
        (Ok(q), Ok(x)) => q.matches(&x),
        _ => false,
    }
}

} // verus!
