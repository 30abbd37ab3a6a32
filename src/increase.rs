//! The checks of a version change before any manifest is touched, and the
//! updates that display the matches before and after it.

use vstd::prelude::*;
use crate::model::PackageAndDeps;
use crate::scan::any_matches;
use crate::search::is_empty_record;
use crate::update::{opt_text, VersionUpdate};

verus! {

/// A semantic version as its five parts: major, minor and patch numbers,
/// pre-release and build metadata.
#[derive(Debug)]
pub struct SemVer {
    pub major: u64,
    pub minor: u64,
    pub patch: u64,
    pub pre: String,
    pub build: String,
}

/// The parts of the semantic version that `s` spells, if it spells one, as
/// semver parses it.
pub uninterp spec fn semver_parts(s: Seq<char>) -> Option<(u64, u64, u64, Seq<char>, Seq<char>)>;

impl SemVer {
    pub open spec fn view(&self) -> (u64, u64, u64, Seq<char>, Seq<char>) {
        (self.major, self.minor, self.patch, self.pre@, self.build@)
    }
}

/// Relies on semver::Version::parse: whether `s` is a semantic version, and
/// its parts, depend on the text alone.
#[verifier::external_body]
fn parse_semver(s: &str) -> (r: Option<SemVer>)
    ensures
        match r {
            Some(v) => semver_parts(s@) == Some(v@),
            None => semver_parts(s@) is None,
        },
{
    match semver::Version::parse(s) {
        Ok(v) => Some(SemVer {
            major: v.major,
            minor: v.minor,
            patch: v.patch,
            pre: v.pre.as_str().to_string(),
            build: v.build.as_str().to_string(),
        }),
        Err(_) => None,
    }
}

/// Whether two versions are the same: all five parts equal.
pub fn same_version(a: &SemVer, b: &SemVer) -> (r: bool)
    ensures
        r == (a@ == b@),
{
    a.major == b.major && a.minor == b.minor && a.patch == b.patch && a.pre == b.pre && a.build
        == b.build
}

/// Why a version change is refused before any file is read.
#[derive(Clone, Copy, Debug, PartialEq, Eq, Structural)]
pub enum IncreaseError {
    /// The current version is not a semantic version.
    InvalidCurrentVersion,
    /// The next version is not a semantic version.
    InvalidNextVersion,
    /// The next version is the current one.
    VersionsIdentical,
    /// No manifest under the directory holds a declaration to change.
    NoMatches,
}

/// The outcome of checking the two versions of a change.
pub open spec fn versions_check(current: Seq<char>, next: Seq<char>) -> Result<(), IncreaseError> {
    match (semver_parts(current), semver_parts(next)) {
        (None, _) => Err(IncreaseError::InvalidCurrentVersion),
        (Some(_), None) => Err(IncreaseError::InvalidNextVersion),
        (Some(a), Some(b)) => if a == b {
            Err(IncreaseError::VersionsIdentical)
        } else {
            Ok(())
        },
    }
}

/// Both versions must be semantic versions, and differ.
pub fn check_versions(current: &str, next: &str) -> (r: Result<(), IncreaseError>)
    ensures
        r == versions_check(current@, next@),
{
    let a = match parse_semver(current) {
        Some(v) => v,
        None => {
            return Err(IncreaseError::InvalidCurrentVersion);
        },
    };
    let b = match parse_semver(next) {
        Some(v) => v,
        None => {
            return Err(IncreaseError::InvalidNextVersion);
        },
    };
    if same_version(&a, &b) {
        Err(IncreaseError::VersionsIdentical)
    } else {
        Ok(())
    }
}

pub open spec fn error_of(r: Result<Increaser, IncreaseError>) -> Option<IncreaseError> {
    match r {
        Ok(_) => None,
        Err(e) => Some(e),
    }
}

pub open spec fn error_of_check(r: Result<(), IncreaseError>) -> Option<IncreaseError> {
    match r {
        Ok(_) => None,
        Err(e) => Some(e),
    }
}

/// A version change over the manifests under a directory, with the
/// records that it matched before any file was touched.
pub struct Increaser {
    pub dir_path: String,
    pub current_version: String,
    pub next_version: String,
    pub package_name: Option<String>,
    pub package_dirs: Vec<(String, PackageAndDeps)>,
}

impl Increaser {
    /// A version change between two semantic versions (`check_versions`
    /// tests that first), refused when they are the same or when no record
    /// matches.
    pub fn new(
        dir_path: String,
        current_version: String,
        next_version: String,
        package_name: Option<String>,
        package_dirs: Vec<(String, PackageAndDeps)>,
    ) -> (r: Result<Increaser, IncreaseError>)
        requires
            semver_parts(current_version@) is Some,
            semver_parts(next_version@) is Some,
        ensures
            versions_check(current_version@, next_version@) is Err ==> error_of(r)
                == error_of_check(versions_check(current_version@, next_version@)),
            versions_check(current_version@, next_version@) is Ok ==> match r {
                Ok(inc) => inc.dir_path == dir_path && inc.current_version == current_version
                    && inc.next_version == next_version && inc.package_name == package_name
                    && inc.package_dirs == package_dirs && exists|i: int|
                    0 <= i < package_dirs@.len() && !is_empty_record(
                        #[trigger] package_dirs@[i].1@,
                    ),
                Err(e) => e == IncreaseError::NoMatches && forall|i: int|
                    0 <= i < package_dirs@.len() ==> is_empty_record(
                        #[trigger] package_dirs@[i].1@,
                    ),
            },
    {
        match check_versions(current_version.as_str(), next_version.as_str()) {
            Ok(()) => {},
            Err(e) => {
                return Err(e);
            },
        }
        if !any_matches(&package_dirs) {
            return Err(IncreaseError::NoMatches);
        }
        Ok(Increaser { dir_path, current_version, next_version, package_name, package_dirs })
    }
}


fn copy_name(n: &Option<String>) -> (r: Option<String>)
    ensures
        opt_text(r) == opt_text(*n),
{
    match n {
        Some(s) => Some(s.as_str().to_owned()),
        None => None,
    }
}

impl Increaser {
    /// The change itself: the current version to the next one.
    pub fn version_update(&self) -> (r: VersionUpdate)
        ensures
            r@.package_name == opt_text(self.package_name),
            r@.current == self.current_version@,
            r@.new == self.next_version@,
    {
        VersionUpdate {
            package_name: copy_name(&self.package_name),
            current_version: self.current_version.as_str().to_owned(),
            new_version: self.next_version.as_str().to_owned(),
        }
    }

    /// The selection of the declarations at the next version, after the
    /// change.
    pub fn next_matches_update(&self) -> (r: VersionUpdate)
        ensures
            r@.package_name == opt_text(self.package_name),
            r@.current == self.next_version@,
            r@.new == self.next_version@,
    {
        VersionUpdate {
            package_name: copy_name(&self.package_name),
            current_version: self.next_version.as_str().to_owned(),
            new_version: self.next_version.as_str().to_owned(),
        }
    }
}

} // verus!
