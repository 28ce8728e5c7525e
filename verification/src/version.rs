//! Semantic versions.

use crate::decimal::{numeral, render_numeral};
use std::cmp::Ordering;
use vstd::prelude::*;
use vstd::string::*;

verus! {

/// A semantic version: three numbers, a pre-release tag and build metadata,
/// the last two empty where the version has none.
#[derive(Clone, Debug, PartialEq, Eq, Hash)]
pub struct Version {
    pub major: u64,
    pub minor: u64,
    pub patch: u64,
    pub pre: String,
    pub build: String,
}

/// The mathematical value of a [`Version`].
pub struct VersionModel {
    pub major: u64,
    pub minor: u64,
    pub patch: u64,
    pub pre: Seq<char>,
    pub build: Seq<char>,
}

/// How one version stands to another in the order of versions.
#[derive(Clone, Copy, Debug, PartialEq, Eq)]
pub enum Rank {
    Lower,
    Same,
    Higher,
}

impl View for Version {
    type V = VersionModel;

    open spec fn view(&self) -> VersionModel {
        VersionModel {
            major: self.major,
            minor: self.minor,
            patch: self.patch,
            pre: self.pre@,
            build: self.build@,
        }
    }
}

/// The version that `semver::Version::parse` reads from `text`, or `None`
/// where it refuses the text.
pub uninterp spec fn semver_parsed(text: Seq<char>) -> Option<VersionModel>;

/// How `semver::Version`'s total order ranks the version `a` against `b`.
pub uninterp spec fn semver_rank(a: VersionModel, b: VersionModel) -> Rank;

/// Whether the three numbers of `a` come before those of `b`, compared from
/// left to right.
pub open spec fn numbers_before(a: VersionModel, b: VersionModel) -> bool {
    a.major < b.major || (a.major == b.major && (a.minor < b.minor || (a.minor == b.minor
        && a.patch < b.patch)))
}

/// The text of a version: the three numbers with dots between them, then a
/// hyphen and the pre-release tag if there is one, then a plus sign and the
/// build metadata if there is any.
pub open spec fn version_text(v: VersionModel) -> Seq<char> {
    numeral(v.major as nat) + seq!['.'] + numeral(v.minor as nat) + seq!['.'] + numeral(
        v.patch as nat,
    ) + (if v.pre.len() > 0 {
        seq!['-'] + v.pre
    } else {
        Seq::empty()
    }) + (if v.build.len() > 0 {
        seq!['+'] + v.build
    } else {
        Seq::empty()
    })
}

/// Whether parsing the text of `v` gives `v` back.
pub open spec fn version_canonical(v: VersionModel) -> bool {
    semver_parsed(version_text(v)) == Some(v)
}

/// Calls `semver::Version::parse` and copies out the fields of the version it
/// read. Nothing is proved of it: the contract only gives the parsed version
/// its name, and says that `None` comes exactly when the parser refuses the
/// text.
#[verifier::external_body]
fn read_semver(text: &str) -> (r: Option<Version>)
    ensures
        match r {
            Some(v) => semver_parsed(text@) == Some(v@),
            None => semver_parsed(text@) is None,
        },
{
    match semver::Version::parse(text) {
        Ok(v) => Some(
            Version {
                major: v.major,
                minor: v.minor,
                patch: v.patch,
                pre: v.pre.as_str().to_owned(),
                build: v.build.as_str().to_owned(),
            },
        ),
        Err(_) => None,
    }
}

/// Parses both texts with `semver::Version::parse` and compares the two
/// versions with `semver::Version`'s `Ord`. Nothing is proved of it. The
/// contract says that a rank comes exactly when both texts parse, gives that
/// rank its name, and states what the crate documents of the order: the major,
/// minor and patch numbers are compared first, as a triple.
#[verifier::external_body]
fn rank_semver(a: &str, b: &str) -> (r: Option<Rank>)
    ensures
        r == match (semver_parsed(a@), semver_parsed(b@)) {
            (Some(x), Some(y)) => Some(semver_rank(x, y)),
            _ => None,
        },
        match (semver_parsed(a@), semver_parsed(b@)) {
            (Some(x), Some(y)) => (numbers_before(x, y) ==> r == Some(Rank::Lower)) && (
            numbers_before(y, x) ==> r == Some(Rank::Higher)),
            _ => r is None,
        },
{
    let x = semver::Version::parse(a).ok()?;
    let y = semver::Version::parse(b).ok()?;
    Some(
        match x.cmp(&y) {
            Ordering::Less => Rank::Lower,
            Ordering::Equal => Rank::Same,
            Ordering::Greater => Rank::Higher,
        },
    )
}

impl Version {
    /// Whether parsing the text of the version gives the version back.
    pub open spec fn canonical(&self) -> bool {
        version_canonical(self@)
    }

    /// Reads a version. `None` is returned exactly where the text is not a
    /// semantic version.
    pub fn parse(text: &str) -> (r: Option<Version>)
        ensures
            match r {
                Some(v) => semver_parsed(text@) == Some(v@),
                None => semver_parsed(text@) is None,
            },
    {
        read_semver(text)
    }

    /// Whether the two versions are the same version.
    pub fn same(&self, other: &Version) -> (r: bool)
        ensures
            r == (self@ == other@),
    {
        let r = self.major == other.major && self.minor == other.minor && self.patch
            == other.patch && self.pre == other.pre && self.build == other.build;
        proof {
            if r {
                assert(self@.pre =~= other@.pre);
                assert(self@.build =~= other@.build);
            }
        }
        r
    }

    /// Writes the version as text.
    pub fn to_text(&self) -> (r: String)
        ensures
            r@ == version_text(self@),
    {
        proof {
            reveal_strlit(".");
            reveal_strlit("-");
            reveal_strlit("+");
        }
        let mut r = render_numeral(self.major as u128);
        r.append(".");
        let minor = render_numeral(self.minor as u128);
        r.append(minor.as_str());
        r.append(".");
        let patch = render_numeral(self.patch as u128);
        r.append(patch.as_str());
        let ghost numbers = r@;
        assert(numbers =~= numeral(self.major as nat) + seq!['.'] + numeral(self.minor as nat)
            + seq!['.'] + numeral(self.patch as nat));
        if self.pre.as_str().unicode_len() > 0 {
            r.append("-");
            r.append(self.pre.as_str());
            assert(r@ =~= numbers + (seq!['-'] + self.pre@));
        } else {
            assert(r@ =~= numbers + Seq::<char>::empty());
        }
        let ghost tagged = r@;
        if self.build.as_str().unicode_len() > 0 {
            r.append("+");
            r.append(self.build.as_str());
            assert(r@ =~= tagged + (seq!['+'] + self.build@));
        } else {
            assert(r@ =~= tagged + Seq::<char>::empty());
        }
        r
    }

    /// Tests whether parsing the text of the version gives the version back.
    pub fn is_canonical(&self) -> (r: bool)
        ensures
            r == self.canonical(),
    {
        let text = self.to_text();
        match read_semver(text.as_str()) {
            Some(v) => v.same(self),
            None => false,
        }
    }

    /// Ranks the version against another in the order of semantic versions.
    /// `None` is returned where the text of either is not a semantic version,
    /// which can only be where it is not canonical.
    pub fn rank(&self, other: &Version) -> (r: Option<Rank>)
        ensures
            r == version_rank(self@, other@),
            self.canonical() && other.canonical() ==> r is Some,
            self.canonical() && other.canonical() && numbers_before(self@, other@) ==> r == Some(
                Rank::Lower,
            ),
            self.canonical() && other.canonical() && numbers_before(other@, self@) ==> r == Some(
                Rank::Higher,
            ),
    {
        let a = self.to_text();
        let b = other.to_text();
        rank_semver(a.as_str(), b.as_str())
    }
}

/// The rank of the version that the text of `a` reads as against the one that
/// the text of `b` reads as, where both texts are semantic versions.
pub open spec fn version_rank(a: VersionModel, b: VersionModel) -> Option<Rank> {
    match (semver_parsed(version_text(a)), semver_parsed(version_text(b))) {
        (Some(x), Some(y)) => Some(semver_rank(x, y)),
        _ => None,
    }
}

} // verus!
