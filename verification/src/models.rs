use vstd::prelude::*;

verus! {

/// One recorded download of a package artifact. The timestamp is seconds
/// since the Unix epoch, as the serving layer's clock reports it.
#[derive(Clone, Debug)]
pub struct Download {
    pub id: Vec<u8>,
    pub package_id: String,
    pub package_version: String,
    pub timestamp: i64,
}

/// A per-package download tally, as the statistics queries report it.
#[derive(Clone, Debug)]
pub struct PackageCount {
    pub package_id: String,
    pub count: i64,
}

/// A download record about to be persisted.
#[derive(Clone, Debug)]
pub struct NewDownload {
    pub package_id: String,
    pub package_version: String,
    pub timestamp: i64,
}

/// A stored account that may upload packages.
#[derive(Clone, Debug)]
pub struct User {
    pub id: Vec<u8>,
    pub username: String,
    pub token: Vec<u8>,
}

/// An account about to be persisted.
#[derive(Clone, Debug)]
pub struct NewUser {
    pub username: String,
    pub token: Vec<u8>,
}

} // verus!
