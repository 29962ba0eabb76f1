use vstd::prelude::*;

verus! {

/// What a status query reports about a package's install state. A closed
/// enumeration: the error variants describe states of the package entry
/// itself, not failures of the query.
#[derive(Clone, Copy, Debug, PartialEq, Eq, Structural)]
pub enum PackageStatus {
    NotInstalled,
    UpToDate,
    RequiresUpdate,
    VersionSkipped,
    ErrorParsingVersion,
    ErrorWrongPlatform,
    ErrorNoInstaller,
}

/// A hard failure of a status query: the metadata needed to answer is
/// missing. Never conflated with `NotInstalled`.
#[derive(Clone, Copy, Debug, PartialEq, Eq, Structural)]
pub enum PackageStatusError {
    RepositoryNotFound,
    PackageNotFound,
}

/// Stable numeric code for a status query result, used across the
/// foreign-function boundary. Install states are non-negative, failures
/// negative. Existing codes are never renumbered; new ones are appended.
pub fn status_to_i8(result: Result<PackageStatus, PackageStatusError>) -> (r: i8)
    ensures
        r == 0 <==> result == Result::<PackageStatus, PackageStatusError>::Ok(
            PackageStatus::NotInstalled,
        ),
        r == 1 <==> result == Result::<PackageStatus, PackageStatusError>::Ok(
            PackageStatus::UpToDate,
        ),
        r == 2 <==> result == Result::<PackageStatus, PackageStatusError>::Ok(
            PackageStatus::RequiresUpdate,
        ),
        r == 3 <==> result == Result::<PackageStatus, PackageStatusError>::Ok(
            PackageStatus::VersionSkipped,
        ),
        r == -1 <==> result == Result::<PackageStatus, PackageStatusError>::Ok(
            PackageStatus::ErrorParsingVersion,
        ),
        r == -2 <==> result == Result::<PackageStatus, PackageStatusError>::Ok(
            PackageStatus::ErrorWrongPlatform,
        ),
        r == -3 <==> result == Result::<PackageStatus, PackageStatusError>::Ok(
            PackageStatus::ErrorNoInstaller,
        ),
        r == -4 <==> result == Result::<PackageStatus, PackageStatusError>::Err(
            PackageStatusError::RepositoryNotFound,
        ),
        r == -5 <==> result == Result::<PackageStatus, PackageStatusError>::Err(
            PackageStatusError::PackageNotFound,
        ),
{
    match result {
        Result::Ok(PackageStatus::NotInstalled) => 0,
        Result::Ok(PackageStatus::UpToDate) => 1,
        Result::Ok(PackageStatus::RequiresUpdate) => 2,
        Result::Ok(PackageStatus::VersionSkipped) => 3,
        Result::Ok(PackageStatus::ErrorParsingVersion) => -1,
        Result::Ok(PackageStatus::ErrorWrongPlatform) => -2,
        Result::Ok(PackageStatus::ErrorNoInstaller) => -3,
        Result::Err(PackageStatusError::RepositoryNotFound) => -4,
        Result::Err(PackageStatusError::PackageNotFound) => -5,
    }
}

} // verus!
