//! The version tag of a family snapshot.

use vstd::prelude::*;

use vstd::string::StringExecFns;

use crate::decimal::{decimal, push_decimal};

verus! {

/// A semantic version: the three numbers, the pre-release tag and the build
/// metadata, the last two as text (empty where absent).
#[derive(Debug, PartialEq)]
pub struct Version {
    pub major: u64,
    pub minor: u64,
    pub patch: u64,
    pub pre: String,
    pub build: String,
}

/// What a version holds, as mathematical values.
pub struct VersionView {
    pub major: u64,
    pub minor: u64,
    pub patch: u64,
    pub pre: Seq<char>,
    pub build: Seq<char>,
}

impl View for Version {
    type V = VersionView;

    open spec fn view(&self) -> VersionView {
        VersionView {
            major: self.major,
            minor: self.minor,
            patch: self.patch,
            pre: self.pre@,
            build: self.build@,
        }
    }
}

impl Clone for Version {
    fn clone(&self) -> (copy: Version)
        ensures
            copy == *self,
    {
        Version {
            major: self.major,
            minor: self.minor,
            patch: self.patch,
            pre: self.pre.clone(),
            build: self.build.clone(),
        }
    }
}

impl VersionView {
    /// The version as it is written: the three numbers with dots between
    /// them, then the pre-release tag behind a hyphen and the build metadata
    /// behind a plus sign, each where it is not empty.
    pub open spec fn written(self) -> Seq<char> {
        let numbers = decimal(self.major as nat) + "."@ + decimal(self.minor as nat) + "."@
            + decimal(self.patch as nat);
        let tagged = if self.pre.len() > 0 {
            numbers + "-"@ + self.pre
        } else {
            numbers
        };
        if self.build.len() > 0 {
            tagged + "+"@ + self.build
        } else {
            tagged
        }
    }
}

impl Version {
    /// Writes the version out.
    pub fn render(&self) -> (text: String)
        ensures
            text@ == self@.written(),
    {
        let mut text = String::new();
        push_decimal(&mut text, self.major);
        text.push('.');
        push_decimal(&mut text, self.minor);
        text.push('.');
        push_decimal(&mut text, self.patch);
        if !self.pre.as_str().is_empty() {
            text.push('-');
            text.append(self.pre.as_str());
        }
        if !self.build.as_str().is_empty() {
            text.push('+');
            text.append(self.build.as_str());
        }
        proof {
            reveal_strlit(".");
            reveal_strlit("-");
            reveal_strlit("+");
            let numbers = decimal(self.major as nat) + "."@ + decimal(self.minor as nat) + "."@
                + decimal(self.patch as nat);
            let plain = Seq::<char>::empty() + decimal(self.major as nat);
            assert(plain.push('.') + decimal(self.minor as nat) =~= decimal(self.major as nat)
                + "."@ + decimal(self.minor as nat));
            assert(text@ =~= self@.written());
        }
        text
    }

    /// The release `major.minor.patch`, without tag or metadata.
    pub fn new(major: u64, minor: u64, patch: u64) -> (version: Version)
        ensures
            version@ == (VersionView {
                major,
                minor,
                patch,
                pre: Seq::<char>::empty(),
                build: Seq::<char>::empty(),
            }),
    {
        Version { major, minor, patch, pre: String::new(), build: String::new() }
    }
}

/// Whether the requirement written as `requirement` admits the version
/// `major.minor.patch` with the pre-release tag `pre`, as the crate semver
/// decides it; nothing where the requirement or the tag is not well formed.
pub uninterp spec fn semver_matches(
    requirement: Seq<char>,
    major: u64,
    minor: u64,
    patch: u64,
    pre: Seq<char>,
) -> Option<bool>;

/// Calls `semver::VersionReq::parse` on the requirement, builds the version
/// with `semver::Version::new` and `semver::Prerelease::new`, and asks
/// `semver::VersionReq::matches`. The answer depends on these five values
/// alone (build metadata plays no part in matching); the contract gives it a
/// name. Where one of the two texts does not parse there is no answer.
#[verifier::external_body]
pub(crate) fn requirement_matches(
    requirement: &str,
    major: u64,
    minor: u64,
    patch: u64,
    pre: &str,
) -> (verdict: Option<bool>)
    ensures
        verdict == semver_matches(requirement@, major, minor, patch, pre@),
{
    let requirement = semver::VersionReq::parse(requirement).ok()?;
    let mut version = semver::Version::new(major, minor, patch);
    version.pre = semver::Prerelease::new(pre).ok()?;
    Some(requirement.matches(&version))
}

impl VersionView {
    /// Whether data of this version can be read: the version lies in the
    /// range of this library's own major version, which is 0.
    pub open spec fn is_compatible(self) -> bool {
        semver_matches("^0"@, self.major, self.minor, self.patch, self.pre) == Some(true)
    }
}

/// What is read off the answer to the question whether the requirement
/// admits a version: only a plain yes counts.
pub fn admits(verdict: Option<bool>) -> (yes: bool)
    ensures
        yes == (verdict == Some(true)),
{
    match verdict {
        Some(answer) => answer,
        None => false,
    }
}

impl Version {
    /// Whether data of this version can be read.
    pub fn is_compatible(&self) -> (yes: bool)
        ensures
            yes == self@.is_compatible(),
    {
        admits(requirement_matches("^0", self.major, self.minor, self.patch, self.pre.as_str()))
    }
}

} // verus!
