//! The toolchain version gate: the decision half of checking that the
//! coverage exporter on the machine is recent enough.
//!
//! The surrounding layer runs the exporter with its version flag and splits
//! its output into a program name and a version string; this module decides
//! whether that pair is acceptable. The accepted versions are those no
//! older than the minimum the wire format is known to work with.

use vstd::prelude::*;

verus! {

/// The name the exporter reports for itself.
pub open spec fn expected_program() -> Seq<char> {
    "cargo-llvm-cov"@
}

/// The minimum accepted version line: major 0, minor 5.
pub open spec fn min_major() -> u64 {
    0
}

/// The minimum accepted version line: major 0, minor 5.
pub open spec fn min_minor() -> u64 {
    5
}

/// Why a version report was rejected.
#[derive(Clone, Copy, PartialEq, Eq, Structural, Debug)]
pub enum VersionError {
    /// The program does not report the expected name.
    WrongProgram,
    /// The version string does not parse.
    BadVersion,
    /// The version is older than the minimum, or is a pre-release.
    TooOld,
}

/// What parsing a version string yields: major, minor and patch numbers
/// and whether the pre-release part is empty. Parsing depends on the
/// characters alone.
pub uninterp spec fn version_parts_of(s: Seq<char>) -> Option<(u64, u64, u64, bool)>;

/// Relies on `semver::Version::parse` for the three numbers of a semantic
/// version, and on `semver::Prerelease::is_empty` for whether the version
/// carries a pre-release part.
#[verifier::external_body]
fn parse_version_parts(s: &str) -> (r: Option<(u64, u64, u64, bool)>)
    ensures
        r == version_parts_of(s@),
{
    semver::Version::parse(s).ok().map(|v| (v.major, v.minor, v.patch, v.pre.is_empty()))
}

/// Whether a parsed version satisfies the minimum-version comparator: at
/// least the minimum major and minor, and no pre-release part. The patch
/// number never decides, since the minimum names none.
pub open spec fn version_acceptable(major: u64, minor: u64, pre_empty: bool) -> bool {
    pre_empty && (major > min_major() || (major == min_major() && minor >= min_minor()))
}

/// Decides whether a version report allows the run to go on.
///
/// `name` and `version` are the two halves of the exporter's version line.
/// The check passes exactly when the name is the expected program, the
/// version parses as a semantic version, and the version is acceptable;
/// each rejection names its reason.
pub fn check_version(name: &str, version: &str) -> (r: Result<(), VersionError>)
    ensures
        r is Ok <==> name@ == expected_program() && (match version_parts_of(version@) {
            Some((major, minor, patch, pre_empty)) => version_acceptable(major, minor, pre_empty),
            None => false,
        }),
        name@ != expected_program() ==> r == Err::<(), VersionError>(VersionError::WrongProgram),
        name@ == expected_program() && version_parts_of(version@) is None ==> r == Err::<
            (),
            VersionError,
        >(VersionError::BadVersion),
        name@ == expected_program() && (match version_parts_of(version@) {
            Some((major, minor, patch, pre_empty)) => !version_acceptable(major, minor, pre_empty),
            None => false,
        }) ==> r == Err::<(), VersionError>(VersionError::TooOld),
{
    let expected: String = "cargo-llvm-cov".to_owned();
    let name_owned: String = name.to_owned();
    if !(name_owned == expected) {
        return Err(VersionError::WrongProgram);
    }
    match parse_version_parts(version) {
        None => Err(VersionError::BadVersion),
        Some((major, minor, _patch, pre_empty)) => {
            if pre_empty && (major > 0 || minor >= 5) {
                Ok(())
            } else {
                Err(VersionError::TooOld)
            }
        },
    }
}

} // verus!
