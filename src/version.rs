use vstd::prelude::*;

verus! {

#[verifier::external_type_specification]
#[verifier::external_body]
pub struct ExSemverVersion(semver::Version);

#[verifier::external_type_specification]
#[verifier::external_body]
pub struct ExSemverVersionReq(semver::VersionReq);

#[verifier::external_type_specification]
#[verifier::external_body]
pub struct ExSemverError(semver::Error);

/// Relies on semver::Version's `Clone`; nothing is claimed of the copy.
pub assume_specification[ <semver::Version as std::clone::Clone>::clone ](
    v: &semver::Version,
) -> semver::Version;

/// Relies on semver::VersionReq's `Clone`; nothing is claimed of the copy.
pub assume_specification[ <semver::VersionReq as std::clone::Clone>::clone ](
    v: &semver::VersionReq,
) -> semver::VersionReq;

/// What a published version is made of: three numbers, a pre-release tag and
/// build metadata (both empty on a plain release).
pub struct VersionModel {
    pub major: u64,
    pub minor: u64,
    pub patch: u64,
    pub pre: Seq<char>,
    pub build: Seq<char>,
}

/// The version that `semver::Version::parse` reads from a text, if it accepts it.
pub uninterp spec fn parsed_version(s: Seq<char>) -> Option<VersionModel>;

/// Whether `semver::VersionReq::parse` accepts a text.
pub uninterp spec fn requirement_parses(s: Seq<char>) -> bool;

/// Whether a version meets a requirement, as `semver::VersionReq::matches`
/// decides from the requirement's text and the version.
pub uninterp spec fn requirement_matches(req: Seq<char>, v: VersionModel) -> bool;

/// How semver orders two versions that agree on their three numbers: by the
/// pre-release tag, then by the build metadata.
pub uninterp spec fn suffix_precedes(
    a_pre: Seq<char>,
    a_build: Seq<char>,
    b_pre: Seq<char>,
    b_build: Seq<char>,
) -> bool;

/// semver's order on versions: lexicographic on major, minor, patch, then on
/// the pre-release tag and build metadata.
pub open spec fn precedes(a: VersionModel, b: VersionModel) -> bool {
    a.major < b.major || (a.major == b.major && (a.minor < b.minor || (a.minor == b.minor && (
    a.patch < b.patch || (a.patch == b.patch && suffix_precedes(a.pre, a.build, b.pre, b.build))))))
}

/// A concrete published version of a crate.
#[derive(Debug, Clone, PartialEq, Eq)]
pub struct CrateVersion {
    major: u64,
    minor: u64,
    patch: u64,
    pre: String,
    build: String,
    inner: semver::Version,
}

impl View for CrateVersion {
    type V = VersionModel;

    closed spec fn view(&self) -> VersionModel {
        VersionModel {
            major: self.major,
            minor: self.minor,
            patch: self.patch,
            pre: self.pre@,
            build: self.build@,
        }
    }
}

/// Relies on semver::Version::parse, and on the public fields of the version it
/// returns, which are copied as they are.
#[verifier::external_body]
fn parse_semver(s: &str) -> (r: Result<CrateVersion, semver::Error>)
    ensures
        match r {
            Ok(v) => parsed_version(s@) == Some(v@),
            Err(_) => parsed_version(s@) is None,
        },
{
    let inner = semver::Version::parse(s)?;
    Ok(CrateVersion {
        major: inner.major,
        minor: inner.minor,
        patch: inner.patch,
        pre: inner.pre.as_str().to_string(),
        build: inner.build.as_str().to_string(),
        inner,
    })
}

/// Relies on the `Ord` that semver::Version derives over its fields in the
/// order major, minor, patch, pre, build.
#[verifier::external_body]
fn semver_lt(a: &CrateVersion, b: &CrateVersion) -> (r: bool)
    ensures
        r == (a@.major < b@.major || (a@.major == b@.major && (a@.minor < b@.minor || (a@.minor
            == b@.minor && (a@.patch < b@.patch || (a@.patch == b@.patch && suffix_precedes(
            a@.pre,
            a@.build,
            b@.pre,
            b@.build,
        ))))))),
{
    a.inner < b.inner
}

impl CrateVersion {
    /// Reads a version such as `1.2.3` or `1.1.0-beta`.
    pub fn parse(s: &str) -> (r: Option<CrateVersion>)
        ensures
            match r {
                Some(v) => parsed_version(s@) == Some(v@),
                None => parsed_version(s@) is None,
            },
    {
        match parse_semver(s) {
            Ok(v) => Some(v),
            Err(_) => None,
        }
    }

    /// A release is stable when it carries no pre-release tag.
    pub fn is_stable(&self) -> (r: bool)
        ensures
            r == (self@.pre.len() == 0),
    {
        self.pre.as_str().is_empty()
    }

    /// Whether `self` comes strictly before `other` in semver's order.
    pub fn lt(&self, other: &CrateVersion) -> (r: bool)
        ensures
            r == precedes(self@, other@),
    {
        semver_lt(self, other)
    }

    pub fn duplicate(&self) -> (r: CrateVersion)
        ensures
            r@ == self@,
    {
        CrateVersion {
            major: self.major,
            minor: self.minor,
            patch: self.patch,
            pre: self.pre.clone(),
            build: self.build.clone(),
            inner: self.inner.clone(),
        }
    }

    pub fn major(&self) -> (r: u64)
        ensures
            r == self@.major,
    {
        self.major
    }

    pub fn minor(&self) -> (r: u64)
        ensures
            r == self@.minor,
    {
        self.minor
    }

    pub fn patch(&self) -> (r: u64)
        ensures
            r == self@.patch,
    {
        self.patch
    }

    /// The version as semver holds it.
    pub fn as_semver(&self) -> &semver::Version {
        &self.inner
    }
}

/// A version requirement such as `^1.2` or `>=1, <2`, with the text it was
/// read from.
#[derive(Debug, Clone, PartialEq, Eq)]
pub struct Requirement {
    text: String,
    inner: semver::VersionReq,
}

impl View for Requirement {
    type V = Seq<char>;

    closed spec fn view(&self) -> Seq<char> {
        self.text@
    }
}

/// Relies on semver::VersionReq::parse.
#[verifier::external_body]
fn parse_semver_req(s: &str) -> (r: Result<semver::VersionReq, semver::Error>)
    ensures
        r is Ok <==> requirement_parses(s@),
{
    semver::VersionReq::parse(s)
}

/// Relies on semver::VersionReq::matches, applied to the requirement read
/// from `req`'s text and to `v` as semver holds it.
#[verifier::external_body]
fn semver_matches(req: &Requirement, v: &CrateVersion) -> (r: bool)
    ensures
        r == requirement_matches(req@, v@),
{
    req.inner.matches(&v.inner)
}

impl Requirement {
    /// Whether `v` meets this requirement.
    pub fn matches(&self, v: &CrateVersion) -> (r: bool)
        ensures
            r == requirement_matches(self@, v@),
    {
        semver_matches(self, v)
    }

    /// Reads a requirement; the result keeps the text it came from.
    pub fn parse(s: &str) -> (r: Option<Requirement>)
        ensures
            r is Some <==> requirement_parses(s@),
            r matches Some(q) ==> q@ == s@,
    {
        match parse_semver_req(s) {
            Ok(inner) => Some(Requirement { text: s.to_string(), inner }),
            Err(_) => None,
        }
    }

    pub fn duplicate(&self) -> (r: Requirement)
        ensures
            r@ == self@,
    {
        Requirement { text: self.text.clone(), inner: self.inner.clone() }
    }

    pub fn text(&self) -> (r: &str)
        ensures
            r@ == self@,
    {
        self.text.as_str()
    }

    /// The requirement as semver holds it.
    pub fn as_semver(&self) -> &semver::VersionReq {
        &self.inner
    }
}

} // verus!
