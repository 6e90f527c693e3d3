use llvm_cov_pretty::version::{check_version, VersionError};

#[test]
fn minimum_version_is_accepted() {
    assert_eq!(check_version("cargo-llvm-cov", "0.5.0"), Ok(()));
}

#[test]
fn newer_minor_is_accepted() {
    assert_eq!(check_version("cargo-llvm-cov", "0.6.14"), Ok(()));
}

#[test]
fn newer_major_is_accepted() {
    assert_eq!(check_version("cargo-llvm-cov", "1.0.0"), Ok(()));
}

#[test]
fn older_version_is_too_old() {
    assert_eq!(
        check_version("cargo-llvm-cov", "0.4.14"),
        Err(VersionError::TooOld)
    );
}

#[test]
fn prerelease_of_minimum_is_too_old() {
    assert_eq!(
        check_version("cargo-llvm-cov", "0.5.0-alpha.1"),
        Err(VersionError::TooOld)
    );
}

#[test]
fn prerelease_of_newer_line_is_too_old() {
    assert_eq!(
        check_version("cargo-llvm-cov", "0.6.0-rc.1"),
        Err(VersionError::TooOld)
    );
}

#[test]
fn unparseable_version_is_refused() {
    assert_eq!(
        check_version("cargo-llvm-cov", "not-a-version"),
        Err(VersionError::BadVersion)
    );
}

#[test]
fn wrong_program_name_is_refused() {
    assert_eq!(
        check_version("cargo", "0.5.0"),
        Err(VersionError::WrongProgram)
    );
}
