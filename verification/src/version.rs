//! Semantic versions (with `semver`) and firmware update data.
use vstd::prelude::*;

verus! {

/// A semantic version: its numbers and its pre-release and build texts.
#[derive(Debug)]
pub struct SemVersion {
    pub major: u64,
    pub minor: u64,
    pub patch: u64,
    pub pre: String,
    pub build: String,
}

/// The fields of a semantic version.
pub open spec fn sem_view(v: SemVersion) -> (u64, u64, u64, Seq<char>, Seq<char>) {
    (v.major, v.minor, v.patch, v.pre@, v.build@)
}

/// What `semver::Version::parse` reads from a text: its numbers and its
/// pre-release and build texts, when the text is a version.
pub uninterp spec fn semver_of(s: Seq<char>) -> Option<(u64, u64, u64, Seq<char>, Seq<char>)>;

/// `semver::Version::parse`, giving the version's fields.  The contract
/// names the result; it claims nothing of the grammar.
#[verifier::external_body]
pub(crate) fn parse_semver(s: &str) -> (r: Option<SemVersion>)
    ensures
        match r {
            Some(v) => semver_of(s@) == Some(sem_view(v)),
            None => semver_of(s@) is None,
        },
{
    match semver::Version::parse(s) {
        Ok(v) => Some(
            SemVersion {
                major: v.major,
                minor: v.minor,
                patch: v.patch,
                pre: v.pre.as_str().to_owned(),
                build: v.build.as_str().to_owned(),
            },
        ),
        Err(_) => None,
    }
}

/// Whether version `a` has higher precedence than version `b`, by
/// `semver::Version`'s ordering.
pub uninterp spec fn semver_greater(
    a: (u64, u64, u64, Seq<char>, Seq<char>),
    b: (u64, u64, u64, Seq<char>, Seq<char>),
) -> bool;

/// `semver::Version` `>`: the two versions are rebuilt from their fields
/// (pre-release and build texts that do not parse are taken as empty) and
/// compared.  The contract names the result; it claims nothing of the
/// precedence rules.
#[verifier::external_body]
fn version_greater(a: &SemVersion, b: &SemVersion) -> (r: bool)
    ensures
        r == semver_greater(sem_view(*a), sem_view(*b)),
{
    let to_version = |v: &SemVersion| semver::Version {
        major: v.major,
        minor: v.minor,
        patch: v.patch,
        pre: semver::Prerelease::new(&v.pre).unwrap_or(semver::Prerelease::EMPTY),
        build: semver::BuildMetadata::new(&v.build).unwrap_or(semver::BuildMetadata::EMPTY),
    };
    to_version(a) > to_version(b)
}

/// A firmware image to upload: its file name and its bytes.
#[derive(Debug)]
pub struct FirmwareImage {
    pub filename: String,
    pub bytes: Vec<u8>,
}

impl FirmwareImage {
    /// An image with the given name and bytes.
    pub fn new(filename: String, bytes: Vec<u8>) -> (r: FirmwareImage)
        ensures
            r.filename@ == filename@,
            r.bytes@ == bytes@,
    {
        FirmwareImage { filename, bytes }
    }
}

/// Where a firmware update comes from.
#[derive(Debug)]
pub enum FirmwareUpdate {
    /// An image at hand.
    Local(FirmwareImage),
    /// An image to fetch from this address.
    Remote(String),
}

/// What is known of a miner's firmware versions.
#[derive(Debug)]
pub struct FirmwareStats {
    pub current_version: Option<SemVersion>,
    pub latest_version: Option<SemVersion>,
    pub firmware: Option<FirmwareUpdate>,
}

impl FirmwareStats {
    /// Whether an update is available: both versions are known and the
    /// latest has higher precedence than the current one.
    pub fn update_available(&self) -> (r: bool)
        ensures
            r == match (self.current_version, self.latest_version) {
                (Some(c), Some(l)) => semver_greater(sem_view(l), sem_view(c)),
                _ => false,
            },
    {
        match (&self.current_version, &self.latest_version) {
            (Some(current), Some(latest)) => version_greater(latest, current),
            _ => false,
        }
    }
}

} // verus!
