use vstd::prelude::*;
use crate::config::{skipped_distinct, spec_skipped, StoreConfig};
use crate::key::{canonical_parts, canonical_seq, PackageKey};
use crate::repo::{
    has_installer, has_package, index_wf, installers_distinct, Installer, PackageDescriptor,
    RepoIndex, RepoRecord, spec_installer, spec_package,
};
use crate::status::{PackageStatus, PackageStatusError};
use crate::version::{
    spec_cmp_parts, valid_version_from, vals_of, Version, version_vals_from, VersionOrdering,
};

verus! {

/// The scope an action applies to. The prefix backend installs system-wide
/// into its prefix; platform backends distinguish a per-user scope.
#[derive(Clone, Copy, Debug, PartialEq, Eq, Structural)]
pub enum InstallTarget {
    System,
    User,
}

/// The locally persisted record that a package is installed: which package,
/// into which target, at which version.
#[derive(Clone, Debug)]
pub struct Receipt {
    pub package_id: String,
    pub target: InstallTarget,
    pub version: String,
}

/// A package store: the repository index cache, the install receipts, the
/// names of cached artifacts, and the shared configuration, specialised to
/// one platform profile resolved at startup.
#[derive(Debug)]
pub struct PrefixPackageStore {
    pub platform: String,
    pub payloads: Vec<String>,
    pub repos: Vec<(RepoRecord, RepoIndex)>,
    pub receipts: Vec<Receipt>,
    pub cached: Vec<String>,
    pub config: StoreConfig,
}

/// Repository urls in the cache are pairwise distinct.
pub open spec fn repos_distinct(repos: Seq<(RepoRecord, RepoIndex)>) -> bool {
    forall|i: int, j: int| 0 <= i < j < repos.len() ==> repos[i].0.url@ != repos[j].0.url@
}

/// Receipts are keyed by pairwise distinct `(package id, target)` pairs.
pub open spec fn receipts_distinct(rs: Seq<Receipt>) -> bool {
    forall|i: int, j: int|
        0 <= i < j < rs.len() ==> !(rs[i].package_id@ == rs[j].package_id@ && rs[i].target
            == rs[j].target)
}

/// The store's internal invariant: every lookup key is unambiguous and every
/// cached index is well formed.
pub open spec fn store_wf(s: PrefixPackageStore) -> bool {
    &&& repos_distinct(s.repos@)
    &&& forall|i: int| 0 <= i < s.repos@.len() ==> index_wf(#[trigger] s.repos@[i].1)
    &&& receipts_distinct(s.receipts@)
    &&& skipped_distinct(s.config.skipped@)
}

/// There is a cached index for the repository at `url`.
pub open spec fn has_repo(repos: Seq<(RepoRecord, RepoIndex)>, url: Seq<char>) -> bool {
    exists|i: int| 0 <= i < repos.len() && repos[i].0.url@ == url
}

/// The cached index for the repository at `url`.
pub open spec fn repo_index_of(repos: Seq<(RepoRecord, RepoIndex)>, url: Seq<char>) -> RepoIndex
    recommends
        has_repo(repos, url),
{
    repos[choose|i: int| 0 <= i < repos.len() && repos[i].0.url@ == url].1
}

/// Look up the cached index for the repository at `url`.
pub open spec fn spec_repo_index(repos: Seq<(RepoRecord, RepoIndex)>, url: Seq<char>) -> Option<
    RepoIndex,
> {
    if has_repo(repos, url) {
        Option::Some(repo_index_of(repos, url))
    } else {
        Option::None
    }
}

/// There is a receipt for `(id, target)`.
pub open spec fn has_receipt(rs: Seq<Receipt>, id: Seq<char>, target: InstallTarget) -> bool {
    exists|i: int| 0 <= i < rs.len() && rs[i].package_id@ == id && rs[i].target == target
}

/// The installed version recorded for `(id, target)`.
pub open spec fn receipt_version_of(rs: Seq<Receipt>, id: Seq<char>, target: InstallTarget) -> Seq<
    char,
>
    recommends
        has_receipt(rs, id, target),
{
    rs[choose|i: int|
        0 <= i < rs.len() && rs[i].package_id@ == id && rs[i].target == target].version@
}

/// Look up the installed version recorded for `(id, target)`.
pub open spec fn spec_receipt(rs: Seq<Receipt>, id: Seq<char>, target: InstallTarget) -> Option<
    Seq<char>,
> {
    if has_receipt(rs, id, target) {
        Option::Some(receipt_version_of(rs, id, target))
    } else {
        Option::None
    }
}

/// The artifact named by the canonical key string `k` is in the cache.
pub open spec fn spec_cached(cached: Seq<String>, k: Seq<char>) -> bool {
    exists|i: int| 0 <= i < cached.len() && cached[i]@ == k
}

/// The payload kind `kind` is one the running backend can install.
pub open spec fn payload_supported(payloads: Seq<String>, kind: Seq<char>) -> bool {
    exists|i: int| 0 <= i < payloads.len() && payloads[i]@ == kind
}

/// What `status` answers, as a function of the store's state alone: resolve
/// the repository, the descriptor and the platform's installer, then compare
/// the repository's version against the local receipt. Missing repository
/// metadata is a hard error, never `NotInstalled`.
pub open spec fn spec_status(
    s: PrefixPackageStore,
    repo_url: Seq<char>,
    package_id: Seq<char>,
    channel: Option<Seq<char>>,
    target: InstallTarget,
) -> Result<PackageStatus, PackageStatusError> {
    if !has_repo(s.repos@, repo_url) {
        Result::Err(PackageStatusError::RepositoryNotFound)
    } else {
        let idx = repo_index_of(s.repos@, repo_url);
        if !has_package(idx, package_id) {
            Result::Err(PackageStatusError::PackageNotFound)
        } else {
            let d = crate::repo::package_of(idx, package_id);
            if !has_installer(d, s.platform@) {
                Result::Ok(PackageStatus::ErrorNoInstaller)
            } else {
                let inst = crate::repo::installer_of(d, s.platform@);
                if !payload_supported(s.payloads@, inst.payload_kind@) {
                    Result::Ok(PackageStatus::ErrorWrongPlatform)
                } else if !valid_version_from(d.version@, 0) {
                    Result::Ok(PackageStatus::ErrorParsingVersion)
                } else if spec_skipped(
                    s.config.skipped@,
                    canonical_parts(repo_url, package_id, channel),
                ) == Option::Some(d.version@) {
                    Result::Ok(PackageStatus::VersionSkipped)
                } else {
                    match spec_receipt(s.receipts@, package_id, target) {
                        Option::None => Result::Ok(PackageStatus::NotInstalled),
                        Option::Some(installed) => {
                            if !valid_version_from(installed, 0) {
                                Result::Ok(PackageStatus::ErrorParsingVersion)
                            } else if spec_cmp_parts(
                                version_vals_from(installed, 0),
                                version_vals_from(d.version@, 0),
                            ) >= 0 {
                                Result::Ok(PackageStatus::UpToDate)
                            } else {
                                Result::Ok(PackageStatus::RequiresUpdate)
                            }
                        },
                    }
                }
            }
        }
    }
}

impl PrefixPackageStore {
    /// The cached index for the repository at `url`, if any.
    pub fn find_repo_index(&self, url: &String) -> (r: Option<&RepoIndex>)
        requires
            repos_distinct(self.repos@),
        ensures
            match r {
                Option::Some(idx) => spec_repo_index(self.repos@, url@) == Option::Some(*idx),
                Option::None => spec_repo_index(self.repos@, url@) is None,
            },
    {
        let n = self.repos.len();
        let mut i: usize = 0;
        while i < n
            invariant
                n == self.repos@.len(),
                0 <= i <= n,
                repos_distinct(self.repos@),
                forall|j: int| 0 <= j < i ==> self.repos@[j].0.url@ != url@,
            decreases n - i,
        {
            if self.repos[i].0.url == *url {
                proof {
                    let w = choose|j: int|
                        0 <= j < self.repos@.len() && self.repos@[j].0.url@ == url@;
                    if w != i as int {
                        if w < i as int {
                            assert(self.repos@[w].0.url@ != self.repos@[i as int].0.url@);
                        } else {
                            assert(self.repos@[i as int].0.url@ != self.repos@[w].0.url@);
                        }
                    }
                }
                return Option::Some(&self.repos[i].1);
            }
            i += 1;
        }
        Option::None
    }

    /// The recorded installed version for `(id, target)`, if any.
    pub fn find_receipt(&self, id: &String, target: InstallTarget) -> (r: Option<&String>)
        requires
            receipts_distinct(self.receipts@),
        ensures
            match r {
                Option::Some(v) => spec_receipt(self.receipts@, id@, target) == Option::Some(v@),
                Option::None => spec_receipt(self.receipts@, id@, target) is None,
            },
    {
        let n = self.receipts.len();
        let mut i: usize = 0;
        while i < n
            invariant
                n == self.receipts@.len(),
                0 <= i <= n,
                receipts_distinct(self.receipts@),
                forall|j: int| 0 <= j < i ==> !(self.receipts@[j].package_id@ == id@
                    && self.receipts@[j].target == target),
            decreases n - i,
        {
            if self.receipts[i].package_id == *id && self.receipts[i].target == target {
                proof {
                    let w = choose|j: int|
                        0 <= j < self.receipts@.len() && self.receipts@[j].package_id@ == id@
                            && self.receipts@[j].target == target;
                    if w != i as int {
                        if w < i as int {
                            assert(!(self.receipts@[w].package_id@ == self.receipts@[
                                i as int
                            ].package_id@ && self.receipts@[w].target == self.receipts@[
                                i as int
                            ].target));
                        } else {
                            assert(!(self.receipts@[i as int].package_id@ == self.receipts@[
                                w
                            ].package_id@ && self.receipts@[i as int].target == self.receipts@[
                                w
                            ].target));
                        }
                    }
                }
                return Option::Some(&self.receipts[i].version);
            }
            i += 1;
        }
        Option::None
    }

    /// Whether the artifact for the canonical key string `k` is cached.
    pub fn is_cached(&self, k: &String) -> (r: bool)
        ensures
            r == spec_cached(self.cached@, k@),
    {
        let n = self.cached.len();
        let mut i: usize = 0;
        while i < n
            invariant
                n == self.cached@.len(),
                0 <= i <= n,
                forall|j: int| 0 <= j < i ==> self.cached@[j]@ != k@,
            decreases n - i,
        {
            if self.cached[i] == *k {
                return true;
            }
            i += 1;
        }
        false
    }

    /// Whether the payload kind `kind` is one this store can install.
    pub fn payload_kind_supported(&self, kind: &String) -> (r: bool)
        ensures
            r == payload_supported(self.payloads@, kind@),
    {
        let n = self.payloads.len();
        let mut i: usize = 0;
        while i < n
            invariant
                n == self.payloads@.len(),
                0 <= i <= n,
                forall|j: int| 0 <= j < i ==> self.payloads@[j]@ != kind@,
            decreases n - i,
        {
            if self.payloads[i] == *kind {
                return true;
            }
            i += 1;
        }
        false
    }

    /// Pure lookup of the descriptor a key names; no side effects.
    pub fn resolve_package(&self, key: &PackageKey) -> (r: Option<&PackageDescriptor>)
        requires
            store_wf(*self),
        ensures
            match r {
                Option::Some(d) => spec_repo_index(self.repos@, key.repository_url@)
                    matches Option::Some(idx) && spec_package(idx, key.package_id@)
                    == Option::Some(*d),
                Option::None => spec_repo_index(self.repos@, key.repository_url@) is None
                    || spec_package(
                    spec_repo_index(self.repos@, key.repository_url@).unwrap(),
                    key.package_id@,
                ) is None,
            },
    {
        let idx = match self.find_repo_index(&key.repository_url) {
            Option::Some(idx) => idx,
            Option::None => {
                return Option::None;
            },
        };
        find_package_in(idx, &key.package_id)
    }

    /// Status of one package for one target: repository metadata compared
    /// against the local receipt. Missing repository or package metadata is
    /// the hard error; the soft error states are statuses.
    pub fn status(&self, key: &PackageKey, target: InstallTarget) -> (r: Result<
        PackageStatus,
        PackageStatusError,
    >)
        requires
            store_wf(*self),
        ensures
            r == spec_status(
                *self,
                key.repository_url@,
                key.package_id@,
                match key.channel {
                    Option::Some(c) => Option::Some(c@),
                    Option::None => Option::None::<Seq<char>>,
                },
                target,
            ),
    {
        let idx = match self.find_repo_index(&key.repository_url) {
            Option::Some(idx) => idx,
            Option::None => {
                return Result::Err(PackageStatusError::RepositoryNotFound);
            },
        };
        let d = match find_package_in(idx, &key.package_id) {
            Option::Some(d) => d,
            Option::None => {
                return Result::Err(PackageStatusError::PackageNotFound);
            },
        };
        let inst = match find_installer_in(d, &self.platform) {
            Option::Some(inst) => inst,
            Option::None => {
                return Result::Ok(PackageStatus::ErrorNoInstaller);
            },
        };
        if !self.payload_kind_supported(&inst.payload_kind) {
            return Result::Ok(PackageStatus::ErrorWrongPlatform);
        }
        let repo_version = match Version::parse(d.version.as_str()) {
            Option::Some(v) => v,
            Option::None => {
                return Result::Ok(PackageStatus::ErrorParsingVersion);
            },
        };
        let keystr = key.to_string();
        match self.config.skipped_version(&keystr) {
            Option::Some(v) => {
                if *v == d.version {
                    return Result::Ok(PackageStatus::VersionSkipped);
                }
            },
            Option::None => {},
        }
        let installed = match self.find_receipt(&key.package_id, target) {
            Option::Some(v) => v,
            Option::None => {
                return Result::Ok(PackageStatus::NotInstalled);
            },
        };
        let installed_version = match Version::parse(installed.as_str()) {
            Option::Some(v) => v,
            Option::None => {
                return Result::Ok(PackageStatus::ErrorParsingVersion);
            },
        };
        match installed_version.cmp(&repo_version) {
            VersionOrdering::Less => Result::Ok(PackageStatus::RequiresUpdate),
            _ => Result::Ok(PackageStatus::UpToDate),
        }
    }

    /// Status of every package in one repository's index, computed
    /// independently per package: one entry's outcome never aborts the rest.
    /// An unknown repository yields the empty list.
    pub fn all_statuses(&self, record: &RepoRecord, target: InstallTarget) -> (r: Vec<
        (String, Result<PackageStatus, PackageStatusError>),
    >)
        requires
            store_wf(*self),
        ensures
            match spec_repo_index(self.repos@, record.url@) {
                Option::Some(idx) => {
                    &&& r@.len() == idx.packages@.len()
                    &&& forall|i: int| 0 <= i < r@.len() ==> r@[i].0@ == idx.packages@[i].id@
                        && r@[i].1 == spec_status(
                        *self,
                        record.url@,
                        idx.packages@[i].id@,
                        Option::None::<Seq<char>>,
                        target,
                    )
                },
                Option::None => r@.len() == 0,
            },
    {
        let mut out: Vec<(String, Result<PackageStatus, PackageStatusError>)> = Vec::new();
        let idx = match self.find_repo_index(&record.url) {
            Option::Some(idx) => idx,
            Option::None => {
                return out;
            },
        };
        let n = idx.packages.len();
        let ghost gidx = *idx;
        let mut i: usize = 0;
        while i < n
            invariant
                store_wf(*self),
                spec_repo_index(self.repos@, record.url@) == Option::Some(gidx),
                n == gidx.packages@.len(),
                *idx == gidx,
                0 <= i <= n,
                out@.len() == i,
                forall|j: int| 0 <= j < i ==> out@[j].0@ == gidx.packages@[j].id@ && out@[j].1
                    == spec_status(
                    *self,
                    record.url@,
                    gidx.packages@[j].id@,
                    Option::None::<Seq<char>>,
                    target,
                ),
            decreases n - i,
        {
            let id = idx.packages[i].id.clone();
            let k = PackageKey {
                repository_url: record.url.clone(),
                package_id: id,
                channel: Option::None,
            };
            let st = self.status(&k, target);
            out.push((k.package_id, st));
            i += 1;
        }
        out
    }
}

/// Why a download cannot even be planned for a key.
#[derive(Clone, Copy, Debug, PartialEq, Eq, Structural)]
pub enum DownloadError {
    RepositoryNotFound,
    PackageNotFound,
    NoInstaller,
}

/// Why an already-obtained payload is rejected at import.
#[derive(Clone, Copy, Debug, PartialEq, Eq, Structural)]
pub enum ImportError {
    RepositoryNotFound,
    PackageNotFound,
    PayloadMismatch,
}

/// Why a store cannot be opened or created from the given persisted state.
#[derive(Clone, Copy, Debug, PartialEq, Eq, Structural)]
pub enum StoreError {
    DuplicateSkippedEntry,
    DuplicateReceipt,
}

/// The url a download for `(repo_url, package_id)` would fetch, as a
/// function of the cached indexes and the platform.
pub open spec fn spec_download_plan(
    repos: Seq<(RepoRecord, RepoIndex)>,
    platform: Seq<char>,
    repo_url: Seq<char>,
    package_id: Seq<char>,
) -> Result<Seq<char>, DownloadError> {
    if !has_repo(repos, repo_url) {
        Result::Err(DownloadError::RepositoryNotFound)
    } else {
        let idx = repo_index_of(repos, repo_url);
        if !has_package(idx, package_id) {
            Result::Err(DownloadError::PackageNotFound)
        } else {
            let d = crate::repo::package_of(idx, package_id);
            if !has_installer(d, platform) {
                Result::Err(DownloadError::NoInstaller)
            } else {
                Result::Ok(crate::repo::installer_of(d, platform).url@)
            }
        }
    }
}

/// The receipts with `r` recorded, replacing any earlier receipt for the
/// same `(package id, target)` pair.
pub open spec fn spec_upsert_receipt(rs: Seq<Receipt>, r: Receipt) -> Seq<Receipt> {
    if has_receipt(rs, r.package_id@, r.target) {
        rs.update(
            choose|i: int|
                0 <= i < rs.len() && rs[i].package_id@ == r.package_id@ && rs[i].target
                    == r.target,
            r,
        )
    } else {
        rs.push(r)
    }
}

/// The receipts with any receipt for `(id, target)` removed.
pub open spec fn spec_remove_receipt(rs: Seq<Receipt>, id: Seq<char>, target: InstallTarget) -> Seq<
    Receipt,
> {
    if has_receipt(rs, id, target) {
        rs.remove(
            choose|i: int| 0 <= i < rs.len() && rs[i].package_id@ == id && rs[i].target == target,
        )
    } else {
        rs
    }
}

/// A receipt reduced to its views: package id, target, version.
pub open spec fn receipt_view(r: Receipt) -> (Seq<char>, InstallTarget, Seq<char>) {
    (r.package_id@, r.target, r.version@)
}

pub open spec fn receipts_view(rs: Seq<Receipt>) -> Seq<(Seq<char>, InstallTarget, Seq<char>)> {
    rs.map_values(|r: Receipt| receipt_view(r))
}

pub open spec fn cached_view(v: Seq<String>) -> Seq<Seq<char>> {
    v.map_values(|s: String| s@)
}

pub open spec fn rv_has(
    rs: Seq<(Seq<char>, InstallTarget, Seq<char>)>,
    id: Seq<char>,
    t: InstallTarget,
) -> bool {
    exists|i: int| 0 <= i < rs.len() && rs[i].0 == id && rs[i].1 == t
}

pub open spec fn rv_get(
    rs: Seq<(Seq<char>, InstallTarget, Seq<char>)>,
    id: Seq<char>,
    t: InstallTarget,
) -> Option<Seq<char>> {
    if rv_has(rs, id, t) {
        Option::Some(rs[choose|i: int| 0 <= i < rs.len() && rs[i].0 == id && rs[i].1 == t].2)
    } else {
        Option::None
    }
}

pub open spec fn rv_upsert(
    rs: Seq<(Seq<char>, InstallTarget, Seq<char>)>,
    id: Seq<char>,
    t: InstallTarget,
    v: Seq<char>,
) -> Seq<(Seq<char>, InstallTarget, Seq<char>)> {
    if rv_has(rs, id, t) {
        rs.update(choose|i: int| 0 <= i < rs.len() && rs[i].0 == id && rs[i].1 == t, (id, t, v))
    } else {
        rs.push((id, t, v))
    }
}

pub open spec fn rv_remove(
    rs: Seq<(Seq<char>, InstallTarget, Seq<char>)>,
    id: Seq<char>,
    t: InstallTarget,
) -> Seq<(Seq<char>, InstallTarget, Seq<char>)> {
    if rv_has(rs, id, t) {
        rs.remove(choose|i: int| 0 <= i < rs.len() && rs[i].0 == id && rs[i].1 == t)
    } else {
        rs
    }
}

pub open spec fn rv_distinct(rs: Seq<(Seq<char>, InstallTarget, Seq<char>)>) -> bool {
    forall|i: int, j: int| 0 <= i < j < rs.len() ==> !(rs[i].0 == rs[j].0 && rs[i].1 == rs[j].1)
}

pub open spec fn ck_has(c: Seq<Seq<char>>, k: Seq<char>) -> bool {
    exists|i: int| 0 <= i < c.len() && c[i] == k
}

/// A canonical key string is cached exactly when its view is among the
/// cache's views.
pub proof fn lemma_cached_view(c: Seq<String>, k: Seq<char>)
    ensures
        spec_cached(c, k) == ck_has(cached_view(c), k),
{
    if spec_cached(c, k) {
        let w = choose|i: int| 0 <= i < c.len() && c[i]@ == k;
        assert(cached_view(c)[w] == k);
    }
    if ck_has(cached_view(c), k) {
        let w = choose|i: int| 0 <= i < cached_view(c).len() && cached_view(c)[i] == k;
        assert(c[w]@ == k);
    }
}

/// Upserting a receipt and then viewing is viewing and then upserting.
pub proof fn lemma_upsert_view(rs: Seq<Receipt>, r: Receipt)
    requires
        receipts_distinct(rs),
    ensures
        receipts_view(spec_upsert_receipt(rs, r)) == rv_upsert(
            receipts_view(rs),
            r.package_id@,
            r.target,
            r.version@,
        ),
{
    let v = receipts_view(rs);
    let id = r.package_id@;
    let t = r.target;
    if has_receipt(rs, id, t) {
        let w1 = choose|i: int|
            0 <= i < rs.len() && rs[i].package_id@ == id && rs[i].target == t;
        assert(v[w1].0 == id && v[w1].1 == t);
        assert(rv_has(v, id, t));
        let w2 = choose|i: int| 0 <= i < v.len() && v[i].0 == id && v[i].1 == t;
        assert(rs[w2].package_id@ == id && rs[w2].target == t);
        if w1 != w2 {
            if w1 < w2 {
                assert(!(rs[w1].package_id@ == rs[w2].package_id@ && rs[w1].target == rs[
                    w2
                ].target));
            } else {
                assert(!(rs[w2].package_id@ == rs[w1].package_id@ && rs[w2].target == rs[
                    w1
                ].target));
            }
        }
        assert(receipts_view(rs.update(w1, r)) =~= v.update(w1, (id, t, r.version@)));
    } else {
        if rv_has(v, id, t) {
            let w2 = choose|i: int| 0 <= i < v.len() && v[i].0 == id && v[i].1 == t;
            assert(rs[w2].package_id@ == id && rs[w2].target == t);
        }
        assert(receipts_view(rs.push(r)) =~= v.push((id, t, r.version@)));
    }
}

/// Removing a receipt and then viewing is viewing and then removing.
pub proof fn lemma_remove_view(rs: Seq<Receipt>, id: Seq<char>, t: InstallTarget)
    requires
        receipts_distinct(rs),
    ensures
        receipts_view(spec_remove_receipt(rs, id, t)) == rv_remove(receipts_view(rs), id, t),
{
    let v = receipts_view(rs);
    if has_receipt(rs, id, t) {
        let w1 = choose|i: int|
            0 <= i < rs.len() && rs[i].package_id@ == id && rs[i].target == t;
        assert(v[w1].0 == id && v[w1].1 == t);
        assert(rv_has(v, id, t));
        let w2 = choose|i: int| 0 <= i < v.len() && v[i].0 == id && v[i].1 == t;
        assert(rs[w2].package_id@ == id && rs[w2].target == t);
        if w1 != w2 {
            if w1 < w2 {
                assert(!(rs[w1].package_id@ == rs[w2].package_id@ && rs[w1].target == rs[
                    w2
                ].target));
            } else {
                assert(!(rs[w2].package_id@ == rs[w1].package_id@ && rs[w2].target == rs[
                    w1
                ].target));
            }
        }
        assert(receipts_view(rs.remove(w1)) =~= v.remove(w1));
    } else {
        if rv_has(v, id, t) {
            let w2 = choose|i: int| 0 <= i < v.len() && v[i].0 == id && v[i].1 == t;
            assert(rs[w2].package_id@ == id && rs[w2].target == t);
        }
    }
}

/// Distinct receipts view to distinct triples: this discharges the
/// distinctness premise of the partial-commit law from a store's own
/// invariant.
pub proof fn lemma_view_distinct(rs: Seq<Receipt>)
    requires
        receipts_distinct(rs),
    ensures
        rv_distinct(receipts_view(rs)),
{
    let v = receipts_view(rs);
    assert forall|i: int, j: int| 0 <= i < j < v.len() implies !(v[i].0 == v[j].0 && v[i].1
        == v[j].1) by {
        assert(!(rs[i].package_id@ == rs[j].package_id@ && rs[i].target == rs[j].target));
    }
}

/// With distinct pairs, looking up the pair at position `i` answers the
/// version at position `i`.
pub proof fn lemma_receipt_at(rs: Seq<Receipt>, i: int)
    requires
        receipts_distinct(rs),
        0 <= i < rs.len(),
    ensures
        spec_receipt(rs, rs[i].package_id@, rs[i].target) == Option::Some(rs[i].version@),
{
    let id = rs[i].package_id@;
    let t = rs[i].target;
    assert(has_receipt(rs, id, t));
    let w = choose|j: int| 0 <= j < rs.len() && rs[j].package_id@ == id && rs[j].target == t;
    if w != i {
        if w < i {
            assert(!(rs[w].package_id@ == rs[i].package_id@ && rs[w].target == rs[i].target));
        } else {
            assert(!(rs[i].package_id@ == rs[w].package_id@ && rs[i].target == rs[w].target));
        }
    }
}

/// Replacing or appending the receipt at position `i` leaves lookups of
/// every other pair unchanged.
pub proof fn lemma_receipt_frame(
    before: Seq<Receipt>,
    after: Seq<Receipt>,
    i: int,
    id2: Seq<char>,
    t2: InstallTarget,
)
    requires
        receipts_distinct(before),
        receipts_distinct(after),
        0 <= i < after.len(),
        before.len() == after.len() || before.len() + 1 == after.len() && i == before.len(),
        forall|j: int| 0 <= j < after.len() && j != i ==> j < before.len() && after[j] == before[j],
        before.len() == after.len() ==> before[i].package_id@ == after[i].package_id@ && before[
            i
        ].target == after[i].target,
        !(id2 == after[i].package_id@ && t2 == after[i].target),
    ensures
        spec_receipt(after, id2, t2) == spec_receipt(before, id2, t2),
{
    if has_receipt(after, id2, t2) {
        let wa = choose|j: int|
            0 <= j < after.len() && after[j].package_id@ == id2 && after[j].target == t2;
        assert(wa != i);
        assert(before[wa].package_id@ == id2 && before[wa].target == t2);
        assert(has_receipt(before, id2, t2));
        let wb = choose|j: int|
            0 <= j < before.len() && before[j].package_id@ == id2 && before[j].target == t2;
        if wb != wa {
            assert(wb != i || before.len() == after.len());
            if wb == i {
                assert(!(id2 == after[i].package_id@ && t2 == after[i].target));
                assert(before[i].package_id@ == after[i].package_id@);
            }
            assert(after[wb].package_id@ == id2 && after[wb].target == t2);
            if wb < wa {
                assert(!(after[wb].package_id@ == after[wa].package_id@ && after[wb].target
                    == after[wa].target));
            } else {
                assert(!(after[wa].package_id@ == after[wb].package_id@ && after[wa].target
                    == after[wb].target));
            }
        }
        assert(spec_receipt(after, id2, t2) == Option::Some(after[wa].version@));
        assert(spec_receipt(before, id2, t2) == Option::Some(before[wb].version@));
    } else {
        if has_receipt(before, id2, t2) {
            let wb = choose|j: int|
                0 <= j < before.len() && before[j].package_id@ == id2 && before[j].target == t2;
            if before.len() == after.len() {
                if wb == i {
                    assert(before[i].package_id@ == after[i].package_id@ && before[i].target
                        == after[i].target);
                }
                assert(after[wb].package_id@ == id2 && after[wb].target == t2);
            } else {
                assert(after[wb] == before[wb]);
            }
            assert(has_receipt(after, id2, t2));
        }
    }
}

/// Removing the receipt at position `w` removes its pair and leaves lookups
/// of every other pair unchanged; distinctness survives.
pub proof fn lemma_receipt_remove(before: Seq<Receipt>, w: int)
    requires
        receipts_distinct(before),
        0 <= w < before.len(),
    ensures
        receipts_distinct(before.remove(w)),
        spec_receipt(before.remove(w), before[w].package_id@, before[w].target) is None,
        forall|id2: Seq<char>, t2: InstallTarget|
            !(id2 == before[w].package_id@ && t2 == before[w].target) ==> spec_receipt(
                before.remove(w),
                id2,
                t2,
            ) == spec_receipt(before, id2, t2),
{
    let after = before.remove(w);
    assert forall|i: int, j: int| 0 <= i < j < after.len() implies !(after[i].package_id@
        == after[j].package_id@ && after[i].target == after[j].target) by {
        let oi = if i < w { i } else { i + 1 };
        let oj = if j < w { j } else { j + 1 };
        assert(after[i] == before[oi]);
        assert(after[j] == before[oj]);
    }
    if has_receipt(after, before[w].package_id@, before[w].target) {
        let wa = choose|j: int|
            0 <= j < after.len() && after[j].package_id@ == before[w].package_id@
                && after[j].target == before[w].target;
        let oa = if wa < w { wa } else { wa + 1 };
        assert(after[wa] == before[oa]);
        assert(oa != w);
        if oa < w {
            assert(!(before[oa].package_id@ == before[w].package_id@ && before[oa].target
                == before[w].target));
        } else {
            assert(!(before[w].package_id@ == before[oa].package_id@ && before[w].target
                == before[oa].target));
        }
    }
    assert forall|id2: Seq<char>, t2: InstallTarget|
        !(id2 == before[w].package_id@ && t2 == before[w].target) implies spec_receipt(
        after,
        id2,
        t2,
    ) == spec_receipt(before, id2, t2) by {
        if has_receipt(before, id2, t2) {
            let wb = choose|j: int|
                0 <= j < before.len() && before[j].package_id@ == id2 && before[j].target == t2;
            assert(wb != w);
            let na = if wb < w { wb } else { wb - 1 };
            assert(after[na] == before[wb]);
            assert(has_receipt(after, id2, t2));
            let wa = choose|j: int|
                0 <= j < after.len() && after[j].package_id@ == id2 && after[j].target == t2;
            let oa = if wa < w { wa } else { wa + 1 };
            assert(after[wa] == before[oa]);
            if oa != wb {
                if oa < wb {
                    assert(!(before[oa].package_id@ == before[wb].package_id@ && before[oa].target
                        == before[wb].target));
                } else {
                    assert(!(before[wb].package_id@ == before[oa].package_id@ && before[wb].target
                        == before[oa].target));
                }
            }
            assert(spec_receipt(after, id2, t2) == Option::Some(after[wa].version@));
            assert(spec_receipt(before, id2, t2) == Option::Some(before[wb].version@));
        } else {
            if has_receipt(after, id2, t2) {
                let wa = choose|j: int|
                    0 <= j < after.len() && after[j].package_id@ == id2 && after[j].target == t2;
                let oa = if wa < w { wa } else { wa + 1 };
                assert(after[wa] == before[oa]);
                assert(has_receipt(before, id2, t2));
            }
        }
    }
}

impl PrefixPackageStore {
    /// Position of the cache entry for the repository at `url`, if any.
    fn find_repo_pos(&self, url: &String) -> (r: Option<usize>)
        requires
            repos_distinct(self.repos@),
        ensures
            match r {
                Option::Some(p) => p < self.repos@.len() && self.repos@[p as int].0.url@ == url@
                    && spec_repo_index(self.repos@, url@) == Option::Some(
                    self.repos@[p as int].1,
                ),
                Option::None => !has_repo(self.repos@, url@),
            },
    {
        let n = self.repos.len();
        let mut i: usize = 0;
        while i < n
            invariant
                n == self.repos@.len(),
                0 <= i <= n,
                repos_distinct(self.repos@),
                forall|j: int| 0 <= j < i ==> self.repos@[j].0.url@ != url@,
            decreases n - i,
        {
            if self.repos[i].0.url == *url {
                proof {
                    let w = choose|j: int|
                        0 <= j < self.repos@.len() && self.repos@[j].0.url@ == url@;
                    if w != i as int {
                        if w < i as int {
                            assert(self.repos@[w].0.url@ != self.repos@[i as int].0.url@);
                        } else {
                            assert(self.repos@[i as int].0.url@ != self.repos@[w].0.url@);
                        }
                    }
                }
                return Option::Some(i);
            }
            i += 1;
        }
        Option::None
    }

    /// The url from which the installer payload for `key` would be fetched.
    /// The fetch itself is the caller's, performed outside the store.
    pub fn download_plan(&self, key: &PackageKey) -> (r: Result<String, DownloadError>)
        requires
            store_wf(*self),
        ensures
            match r {
                Result::Ok(u) => spec_download_plan(
                    self.repos@,
                    self.platform@,
                    key.repository_url@,
                    key.package_id@,
                ) == Result::<Seq<char>, DownloadError>::Ok(u@),
                Result::Err(e) => spec_download_plan(
                    self.repos@,
                    self.platform@,
                    key.repository_url@,
                    key.package_id@,
                ) == Result::<Seq<char>, DownloadError>::Err(e),
            },
    {
        let idx = match self.find_repo_index(&key.repository_url) {
            Option::Some(idx) => idx,
            Option::None => {
                return Result::Err(DownloadError::RepositoryNotFound);
            },
        };
        let d = match find_package_in(idx, &key.package_id) {
            Option::Some(d) => d,
            Option::None => {
                return Result::Err(DownloadError::PackageNotFound);
            },
        };
        match find_installer_in(d, &self.platform) {
            Option::Some(inst) => Result::Ok(inst.url.clone()),
            Option::None => Result::Err(DownloadError::NoInstaller),
        }
    }

    /// Record that the artifact for the canonical key string `keystr` now
    /// sits in the cache.
    fn note_cached(&mut self, keystr: String)
        ensures
            spec_cached(final(self).cached@, keystr@),
            forall|k: Seq<char>| k != keystr@ ==> spec_cached(final(self).cached@, k)
                == spec_cached(old(self).cached@, k),
            spec_cached(old(self).cached@, keystr@) ==> final(self).cached@ == old(self).cached@,
            !spec_cached(old(self).cached@, keystr@) ==> final(self).cached@ == old(
                self,
            ).cached@.push(keystr),
            spec_cached(old(self).cached@, keystr@) ==> cached_view(final(self).cached@)
                == cached_view(old(self).cached@),
            !spec_cached(old(self).cached@, keystr@) ==> cached_view(final(self).cached@)
                == cached_view(old(self).cached@).push(keystr@),
            final(self).repos@ == old(self).repos@,
            final(self).receipts@ == old(self).receipts@,
            final(self).config == old(self).config,
            final(self).platform@ == old(self).platform@,
            final(self).payloads@ == old(self).payloads@,
    {
        if self.is_cached(&keystr) {
            return ;
        }
        let ghost before = self.cached@;
        self.cached.push(keystr);
        proof {
            assert(cached_view(self.cached@) =~= cached_view(before).push(
                self.cached@[before.len() as int]@,
            ));
            assert(self.cached@[before.len() as int]@ == keystr@);
            assert forall|k: Seq<char>| k != keystr@ implies spec_cached(self.cached@, k)
                == spec_cached(before, k) by {
                if spec_cached(self.cached@, k) {
                    let w = choose|i: int|
                        0 <= i < self.cached@.len() && self.cached@[i]@ == k;
                    assert(w != before.len());
                    assert(before[w]@ == k);
                }
                if spec_cached(before, k) {
                    let w = choose|i: int| 0 <= i < before.len() && before[i]@ == k;
                    assert(self.cached@[w]@ == k);
                }
            }
        }
    }

    /// Record that a download for `key` completed into the cache. The fetch
    /// itself happens outside the store; a failed or cancelled fetch must
    /// simply not be recorded.
    pub fn mark_downloaded(&mut self, key: &PackageKey)
        ensures
            spec_cached(final(self).cached@, canonical_seq(*key)),
            forall|k: Seq<char>| k != canonical_seq(*key) ==> spec_cached(final(self).cached@, k)
                == spec_cached(old(self).cached@, k),
            spec_cached(old(self).cached@, canonical_seq(*key)) ==> cached_view(
                final(self).cached@,
            ) == cached_view(old(self).cached@),
            !spec_cached(old(self).cached@, canonical_seq(*key)) ==> cached_view(
                final(self).cached@,
            ) == cached_view(old(self).cached@).push(canonical_seq(*key)),
            final(self).repos@ == old(self).repos@,
            final(self).receipts@ == old(self).receipts@,
            final(self).config == old(self).config,
            final(self).platform@ == old(self).platform@,
            final(self).payloads@ == old(self).payloads@,
    {
        let keystr = key.to_string();
        self.note_cached(keystr);
    }

    /// Register an already-obtained payload as the cached artifact for
    /// `key`, bypassing download. The payload must be addressed to the same
    /// package and version the index describes, else it is rejected; the
    /// caller extracts `payload_id` and `payload_version` from the payload
    /// itself. Returns the canonical key string naming the cache slot.
    pub fn import(
        &mut self,
        key: &PackageKey,
        payload_id: &String,
        payload_version: &String,
    ) -> (r: Result<String, ImportError>)
        requires
            store_wf(*old(self)),
        ensures
            store_wf(*final(self)),
            final(self).repos@ == old(self).repos@,
            final(self).receipts@ == old(self).receipts@,
            final(self).config == old(self).config,
            final(self).platform@ == old(self).platform@,
            final(self).payloads@ == old(self).payloads@,
            match spec_repo_index(old(self).repos@, key.repository_url@) {
                Option::None => r == Result::<String, ImportError>::Err(
                    ImportError::RepositoryNotFound,
                ) && final(self).cached@ == old(self).cached@,
                Option::Some(idx) => match spec_package(idx, key.package_id@) {
                    Option::None => r == Result::<String, ImportError>::Err(
                        ImportError::PackageNotFound,
                    ) && final(self).cached@ == old(self).cached@,
                    Option::Some(d) => {
                        if payload_id@ == d.id@ && payload_version@ == d.version@ {
                            &&& r matches Result::Ok(s) && s@ == canonical_seq(*key)
                            &&& spec_cached(final(self).cached@, canonical_seq(*key))
                            &&& forall|k: Seq<char>| k != canonical_seq(*key) ==> spec_cached(
                                final(self).cached@,
                                k,
                            ) == spec_cached(old(self).cached@, k)
                        } else {
                            r == Result::<String, ImportError>::Err(ImportError::PayloadMismatch)
                                && final(self).cached@ == old(self).cached@
                        }
                    },
                },
            },
    {
        let idx = match self.find_repo_index(&key.repository_url) {
            Option::Some(idx) => idx,
            Option::None => {
                return Result::Err(ImportError::RepositoryNotFound);
            },
        };
        let d = match find_package_in(idx, &key.package_id) {
            Option::Some(d) => d,
            Option::None => {
                return Result::Err(ImportError::PackageNotFound);
            },
        };
        if !(*payload_id == d.id && *payload_version == d.version) {
            return Result::Err(ImportError::PayloadMismatch);
        }
        let keystr = key.to_string();
        let out = keystr.clone();
        self.note_cached(keystr);
        Result::Ok(out)
    }

    /// Record that `(package_id, target)` is installed at `version`,
    /// replacing any earlier receipt for the pair.
    pub fn upsert_receipt(&mut self, package_id: String, target: InstallTarget, version: String)
        requires
            receipts_distinct(old(self).receipts@),
        ensures
            receipts_distinct(final(self).receipts@),
            final(self).receipts@ == spec_upsert_receipt(
                old(self).receipts@,
                Receipt { package_id, target, version },
            ),
            receipts_view(final(self).receipts@) == rv_upsert(
                receipts_view(old(self).receipts@),
                package_id@,
                target,
                version@,
            ),
            spec_receipt(final(self).receipts@, package_id@, target) == Option::Some(version@),
            forall|id2: Seq<char>, t2: InstallTarget|
                !(id2 == package_id@ && t2 == target) ==> spec_receipt(
                    final(self).receipts@,
                    id2,
                    t2,
                ) == spec_receipt(old(self).receipts@, id2, t2),
            final(self).repos@ == old(self).repos@,
            final(self).cached@ == old(self).cached@,
            final(self).config == old(self).config,
            final(self).platform@ == old(self).platform@,
            final(self).payloads@ == old(self).payloads@,
    {
        let ghost r = Receipt { package_id: package_id, target: target, version: version };
        let n = self.receipts.len();
        let mut i: usize = 0;
        while i < n
            invariant
                n == self.receipts@.len(),
                0 <= i <= n,
                receipts_distinct(self.receipts@),
                forall|j: int| 0 <= j < i ==> !(self.receipts@[j].package_id@ == package_id@
                    && self.receipts@[j].target == target),
                r == (Receipt { package_id: package_id, target: target, version: version }),
                self.receipts@ == old(self).receipts@,
                self.repos@ == old(self).repos@,
                self.cached@ == old(self).cached@,
                self.config == old(self).config,
                self.platform@ == old(self).platform@,
                self.payloads@ == old(self).payloads@,
            decreases n - i,
        {
            if self.receipts[i].package_id == package_id && self.receipts[i].target == target {
                let ghost before = self.receipts@;
                let ghost w = choose|j: int|
                    0 <= j < before.len() && before[j].package_id@ == r.package_id@
                        && before[j].target == r.target;
                self.receipts.set(i, Receipt { package_id, target, version });
                proof {
                    assert(before[i as int].package_id@ == r.package_id@ && before[
                        i as int
                    ].target == r.target);
                    assert(has_receipt(before, r.package_id@, r.target));
                    if w != i as int {
                        if w < i as int {
                            assert(!(before[w].package_id@ == before[i as int].package_id@
                                && before[w].target == before[i as int].target));
                        } else {
                            assert(!(before[i as int].package_id@ == before[w].package_id@
                                && before[i as int].target == before[w].target));
                        }
                    }
                    assert(w == i as int);
                    assert(self.receipts@ == spec_upsert_receipt(before, r));
                    lemma_upsert_view(before, r);
                    assert forall|p: int, q: int| 0 <= p < q < self.receipts@.len() implies !(
                    self.receipts@[p].package_id@ == self.receipts@[q].package_id@
                        && self.receipts@[p].target == self.receipts@[q].target) by {
                        assert(!(before[p].package_id@ == before[q].package_id@ && before[p].target
                            == before[q].target));
                    }
                    lemma_receipt_at(self.receipts@, i as int);
                    assert forall|id2: Seq<char>, t2: InstallTarget|
                        !(id2 == package_id@ && t2 == target) implies spec_receipt(
                        self.receipts@,
                        id2,
                        t2,
                    ) == spec_receipt(before, id2, t2) by {
                        lemma_receipt_frame(before, self.receipts@, i as int, id2, t2);
                    }
                }
                return ;
            }
            i += 1;
        }
        let ghost before = self.receipts@;
        self.receipts.push(Receipt { package_id, target, version });
        proof {
            assert(!has_receipt(before, r.package_id@, r.target));
            assert(self.receipts@ == spec_upsert_receipt(before, r));
            lemma_upsert_view(before, r);
            assert forall|p: int, q: int| 0 <= p < q < self.receipts@.len() implies !(
            self.receipts@[p].package_id@ == self.receipts@[q].package_id@
                && self.receipts@[p].target == self.receipts@[q].target) by {
                if q < before.len() {
                    assert(!(before[p].package_id@ == before[q].package_id@ && before[p].target
                        == before[q].target));
                } else {
                    assert(!(before[p].package_id@ == r.package_id@ && before[p].target
                        == r.target));
                }
            }
            lemma_receipt_at(self.receipts@, before.len() as int);
            assert forall|id2: Seq<char>, t2: InstallTarget|
                !(id2 == r.package_id@ && t2 == r.target) implies spec_receipt(
                self.receipts@,
                id2,
                t2,
            ) == spec_receipt(before, id2, t2) by {
                lemma_receipt_frame(before, self.receipts@, before.len() as int, id2, t2);
            }
        }
    }

    /// Remove any receipt for `(package_id, target)`.
    pub fn remove_receipt(&mut self, package_id: &String, target: InstallTarget)
        requires
            receipts_distinct(old(self).receipts@),
        ensures
            receipts_distinct(final(self).receipts@),
            final(self).receipts@ == spec_remove_receipt(old(self).receipts@, package_id@, target),
            receipts_view(final(self).receipts@) == rv_remove(
                receipts_view(old(self).receipts@),
                package_id@,
                target,
            ),
            spec_receipt(final(self).receipts@, package_id@, target) is None,
            forall|id2: Seq<char>, t2: InstallTarget|
                !(id2 == package_id@ && t2 == target) ==> spec_receipt(
                    final(self).receipts@,
                    id2,
                    t2,
                ) == spec_receipt(old(self).receipts@, id2, t2),
            final(self).repos@ == old(self).repos@,
            final(self).cached@ == old(self).cached@,
            final(self).config == old(self).config,
            final(self).platform@ == old(self).platform@,
            final(self).payloads@ == old(self).payloads@,
    {
        let n = self.receipts.len();
        let mut i: usize = 0;
        while i < n
            invariant
                n == self.receipts@.len(),
                0 <= i <= n,
                receipts_distinct(self.receipts@),
                forall|j: int| 0 <= j < i ==> !(self.receipts@[j].package_id@ == package_id@
                    && self.receipts@[j].target == target),
                self.receipts@ == old(self).receipts@,
                self.repos@ == old(self).repos@,
                self.cached@ == old(self).cached@,
                self.config == old(self).config,
                self.platform@ == old(self).platform@,
                self.payloads@ == old(self).payloads@,
            decreases n - i,
        {
            if self.receipts[i].package_id == *package_id && self.receipts[i].target == target {
                let ghost before = self.receipts@;
                let ghost w = choose|j: int|
                    0 <= j < before.len() && before[j].package_id@ == package_id@
                        && before[j].target == target;
                self.receipts.remove(i);
                proof {
                    if w != i as int {
                        if w < i as int {
                            assert(!(before[w].package_id@ == before[i as int].package_id@
                                && before[w].target == before[i as int].target));
                        } else {
                            assert(!(before[i as int].package_id@ == before[w].package_id@
                                && before[i as int].target == before[w].target));
                        }
                    }
                    assert(self.receipts@ == spec_remove_receipt(before, package_id@, target));
                    lemma_receipt_remove(before, i as int);
                    lemma_remove_view(before, package_id@, target);
                }
                return ;
            }
            i += 1;
        }
        proof {
            assert(!has_receipt(self.receipts@, package_id@, target));
            if rv_has(receipts_view(self.receipts@), package_id@, target) {
                let w = choose|j: int|
                    0 <= j < receipts_view(self.receipts@).len() && receipts_view(
                        self.receipts@,
                    )[j].0 == package_id@ && receipts_view(self.receipts@)[j].1 == target;
                assert(self.receipts@[w].package_id@ == package_id@ && self.receipts@[w].target
                    == target);
            }
        }
    }

    /// Read access to the repository index cache, for serialisation and
    /// display. Callers wanting concurrent reads share the whole store
    /// behind a read/write lock; within it, refreshes replace entries
    /// whole, so a reader sees each repository's old or new index, never a
    /// mixture.
    pub fn repos(&self) -> (r: &Vec<(RepoRecord, RepoIndex)>)
        ensures
            r == &self.repos,
    {
        &self.repos
    }

    /// Read access to the shared configuration.
    pub fn config(&self) -> (r: &StoreConfig)
        ensures
            r == &self.config,
    {
        &self.config
    }

    /// Drop the cached index contents and every cached artifact. Install
    /// receipts and configuration are untouched: what is installed stays
    /// known; only fetched data is forgotten.
    pub fn clear_cache(&mut self)
        ensures
            final(self).cached@.len() == 0,
            final(self).repos@.len() == 0,
            final(self).receipts@ == old(self).receipts@,
            final(self).config == old(self).config,
            final(self).platform@ == old(self).platform@,
            final(self).payloads@ == old(self).payloads@,
            store_wf(*old(self)) ==> store_wf(*final(self)),
    {
        self.cached = Vec::new();
        self.repos = Vec::new();
    }
}

/// One fetched index folded into the cache. A missing or malformed index —
/// a failed fetch — changes nothing. A sound one replaces the whole cache
/// entry for its repository where `force` allows, or joins the cache if its
/// repository was absent; entries are never edited in place.
pub open spec fn spec_apply_entry(
    repos: Seq<(RepoRecord, RepoIndex)>,
    rec: RepoRecord,
    oidx: Option<RepoIndex>,
    force: bool,
) -> Seq<(RepoRecord, RepoIndex)> {
    match oidx {
        Option::None => repos,
        Option::Some(idx) => {
            if !index_wf(idx) {
                repos
            } else if has_repo(repos, rec.url@) {
                if force {
                    repos.update(
                        choose|i: int| 0 <= i < repos.len() && repos[i].0.url@ == rec.url@,
                        (rec, idx),
                    )
                } else {
                    repos
                }
            } else {
                repos.push((rec, idx))
            }
        },
    }
}

/// The fetched indexes from `i` on folded into the cache in order.
pub open spec fn spec_apply_fetched(
    repos: Seq<(RepoRecord, RepoIndex)>,
    fetched: Seq<(RepoRecord, Option<RepoIndex>)>,
    i: int,
    force: bool,
) -> Seq<(RepoRecord, RepoIndex)>
    decreases fetched.len() - i,
{
    if !(0 <= i < fetched.len()) {
        repos
    } else {
        spec_apply_fetched(
            spec_apply_entry(repos, fetched[i].0, fetched[i].1, force),
            fetched,
            i + 1,
            force,
        )
    }
}

/// Folding in one entry keeps the cache well formed, and every repository
/// resolves either to its old index or to the whole fetched index — never
/// to a mixture.
pub proof fn lemma_apply_entry(
    repos: Seq<(RepoRecord, RepoIndex)>,
    rec: RepoRecord,
    oidx: Option<RepoIndex>,
    force: bool,
)
    requires
        repos_distinct(repos),
        forall|i: int| 0 <= i < repos.len() ==> index_wf(#[trigger] repos[i].1),
    ensures
        repos_distinct(spec_apply_entry(repos, rec, oidx, force)),
        forall|i: int| 0 <= i < spec_apply_entry(repos, rec, oidx, force).len() ==> index_wf(
            #[trigger] spec_apply_entry(repos, rec, oidx, force)[i].1,
        ),
        forall|url: Seq<char>| #![auto] spec_repo_index(spec_apply_entry(repos, rec, oidx, force), url)
            == spec_repo_index(repos, url) || (oidx matches Option::Some(idx) && index_wf(idx)
            && url == rec.url@ && spec_repo_index(spec_apply_entry(repos, rec, oidx, force), url)
            == Option::Some(idx)),
{
    let after = spec_apply_entry(repos, rec, oidx, force);
    match oidx {
        Option::None => {},
        Option::Some(idx) => {
            if !index_wf(idx) {
            } else if has_repo(repos, rec.url@) {
                if force {
                    let w = choose|i: int| 0 <= i < repos.len() && repos[i].0.url@ == rec.url@;
                    assert(repos[w].0.url@ == rec.url@);
                    assert(after == repos.update(w, (rec, idx)));
                    assert forall|x: int| 0 <= x < after.len() implies after[x].0.url@ == repos[
                        x
                    ].0.url@ by {}
                    assert forall|p: int, q: int| 0 <= p < q < after.len() implies after[p].0.url@
                        != after[q].0.url@ by {
                        assert(repos[p].0.url@ != repos[q].0.url@);
                    }
                    assert forall|url: Seq<char>| #![auto] spec_repo_index(after, url)
                        == spec_repo_index(repos, url) || (url == rec.url@ && spec_repo_index(
                        after,
                        url,
                    ) == Option::Some(idx)) by {
                        if url == rec.url@ {
                            assert(after[w].0.url@ == url);
                            assert(has_repo(after, url));
                            let wa = choose|i: int|
                                0 <= i < after.len() && after[i].0.url@ == url;
                            if wa != w {
                                if wa < w {
                                    assert(after[wa].0.url@ != after[w].0.url@);
                                } else {
                                    assert(after[w].0.url@ != after[wa].0.url@);
                                }
                            }
                            assert(spec_repo_index(after, url) == Option::Some(idx));
                        } else {
                            if has_repo(after, url) {
                                let wa = choose|i: int|
                                    0 <= i < after.len() && after[i].0.url@ == url;
                                assert(wa != w);
                                assert(repos[wa].0.url@ == url);
                                assert(has_repo(repos, url));
                                let wb = choose|i: int|
                                    0 <= i < repos.len() && repos[i].0.url@ == url;
                                if wb != wa {
                                    if wb < wa {
                                        assert(repos[wb].0.url@ != repos[wa].0.url@);
                                    } else {
                                        assert(repos[wa].0.url@ != repos[wb].0.url@);
                                    }
                                }
                                assert(after[wa].1 == repos[wb].1);
                            } else {
                                if has_repo(repos, url) {
                                    let wb = choose|i: int|
                                        0 <= i < repos.len() && repos[i].0.url@ == url;
                                    assert(wb != w);
                                    assert(after[wb].0.url@ == url);
                                    assert(has_repo(after, url));
                                }
                            }
                        }
                    }
                }
            } else {
                assert(after == repos.push((rec, idx)));
                assert forall|p: int, q: int| 0 <= p < q < after.len() implies after[p].0.url@
                    != after[q].0.url@ by {
                    if q < repos.len() {
                        assert(repos[p].0.url@ != repos[q].0.url@);
                    } else {
                        assert(!(exists|i: int|
                            0 <= i < repos.len() && repos[i].0.url@ == rec.url@));
                        assert(after[p].0.url@ == repos[p].0.url@);
                    }
                }
                assert forall|url: Seq<char>| #![auto] spec_repo_index(after, url)
                    == spec_repo_index(repos, url) || (url == rec.url@ && spec_repo_index(
                    after,
                    url,
                ) == Option::Some(idx)) by {
                    if url == rec.url@ {
                        assert(after[repos.len() as int].0.url@ == url);
                        assert(has_repo(after, url));
                        let wa = choose|i: int| 0 <= i < after.len() && after[i].0.url@ == url;
                        if wa != repos.len() {
                            assert(repos[wa].0.url@ == url);
                        }
                        assert(spec_repo_index(after, url) == Option::Some(idx));
                    } else {
                        if has_repo(after, url) {
                            let wa = choose|i: int|
                                0 <= i < after.len() && after[i].0.url@ == url;
                            assert(wa != repos.len());
                            assert(repos[wa].0.url@ == url);
                            assert(has_repo(repos, url));
                            let wb = choose|i: int|
                                0 <= i < repos.len() && repos[i].0.url@ == url;
                            if wb != wa {
                                if wb < wa {
                                    assert(repos[wb].0.url@ != repos[wa].0.url@);
                                } else {
                                    assert(repos[wa].0.url@ != repos[wb].0.url@);
                                }
                            }
                            assert(after[wa].1 == repos[wb].1);
                        } else {
                            if has_repo(repos, url) {
                                let wb = choose|i: int|
                                    0 <= i < repos.len() && repos[i].0.url@ == url;
                                assert(after[wb].0.url@ == url);
                                assert(has_repo(after, url));
                            }
                        }
                    }
                }
            }
        },
    }
}

/// Replace-whole-entry semantics over a whole refresh: after folding in the
/// fetched indexes, every repository's entry is either its old index or one
/// of the fetched indexes in full. A reader never sees a partially-updated
/// index.
pub proof fn lemma_refresh_replaces_whole(
    repos: Seq<(RepoRecord, RepoIndex)>,
    fetched: Seq<(RepoRecord, Option<RepoIndex>)>,
    i: int,
    force: bool,
    url: Seq<char>,
)
    requires
        repos_distinct(repos),
        forall|j: int| 0 <= j < repos.len() ==> index_wf(#[trigger] repos[j].1),
    ensures
        spec_repo_index(spec_apply_fetched(repos, fetched, i, force), url) == spec_repo_index(
            repos,
            url,
        ) || exists|k: int|
            i <= k < fetched.len() && ((#[trigger] fetched[k].1) matches Option::Some(idx)
                && fetched[k].0.url@ == url && spec_repo_index(
                spec_apply_fetched(repos, fetched, i, force),
                url,
            ) == Option::Some(idx)),
    decreases fetched.len() - i,
{
    if 0 <= i < fetched.len() {
        let mid = spec_apply_entry(repos, fetched[i].0, fetched[i].1, force);
        lemma_apply_entry(repos, fetched[i].0, fetched[i].1, force);
        lemma_refresh_replaces_whole(mid, fetched, i + 1, force, url);
        let after = spec_apply_fetched(repos, fetched, i, force);
        if spec_repo_index(after, url) == spec_repo_index(mid, url) {
            if spec_repo_index(mid, url) != spec_repo_index(repos, url) {
                assert(fetched[i].1 matches Option::Some(idx) && fetched[i].0.url@ == url
                    && spec_repo_index(mid, url) == Option::Some(idx));
            }
        }
    }
}

impl PrefixPackageStore {
    /// Fold a list of fetched indexes into the cache, in order.
    fn apply_fetched(&mut self, fetched: Vec<(RepoRecord, Option<RepoIndex>)>, force: bool)
        requires
            store_wf(*old(self)),
        ensures
            store_wf(*final(self)),
            final(self).repos@ == spec_apply_fetched(old(self).repos@, fetched@, 0, force),
            final(self).receipts@ == old(self).receipts@,
            final(self).cached@ == old(self).cached@,
            final(self).config == old(self).config,
            final(self).platform@ == old(self).platform@,
            final(self).payloads@ == old(self).payloads@,
    {
        let mut fetched = fetched;
        let ghost orig = fetched@;
        let ghost init = self.repos@;
        while fetched.len() > 0
            invariant
                store_wf(*self),
                fetched@.len() <= orig.len(),
                fetched@ == orig.skip(orig.len() - fetched@.len()),
                spec_apply_fetched(init, orig, 0, force) == spec_apply_fetched(
                    self.repos@,
                    orig,
                    orig.len() - fetched@.len(),
                    force,
                ),
                init == old(self).repos@,
                self.receipts@ == old(self).receipts@,
                self.cached@ == old(self).cached@,
                self.config == old(self).config,
                self.platform@ == old(self).platform@,
                self.payloads@ == old(self).payloads@,
            decreases fetched@.len(),
        {
            let ghost i = orig.len() - fetched@.len();
            let ghost repos_at_entry = self.repos@;
            proof {
                assert(fetched@[0] == orig[i]);
            }
            let entry = fetched.remove(0);
            proof {
                assert(fetched@ =~= orig.skip(i + 1));
            }
            let (rec, oidx) = entry;
            let ghost grec = rec;
            let ghost goidx = oidx;
            match oidx {
                Option::None => {},
                Option::Some(idx) => {
                    if idx.check_wf() {
                        match self.find_repo_pos(&rec.url) {
                            Option::Some(p) => {
                                if force {
                                    let ghost before = self.repos@;
                                    let ghost w = choose|x: int|
                                        0 <= x < before.len() && before[x].0.url@ == grec.url@;
                                    self.repos.set(p, (rec, idx));
                                    proof {
                                        if w != p as int {
                                            if w < p as int {
                                                assert(before[w].0.url@ != before[
                                                    p as int
                                                ].0.url@);
                                            } else {
                                                assert(before[p as int].0.url@ != before[
                                                    w
                                                ].0.url@);
                                            }
                                        }
                                        assert(self.repos@ == spec_apply_entry(
                                            before,
                                            grec,
                                            goidx,
                                            force,
                                        ));
                                        lemma_apply_entry(before, grec, goidx, force);
                                    }
                                }
                            },
                            Option::None => {
                                let ghost before = self.repos@;
                                self.repos.push((rec, idx));
                                proof {
                                    assert(self.repos@ == spec_apply_entry(
                                        before,
                                        grec,
                                        goidx,
                                        force,
                                    ));
                                    lemma_apply_entry(before, grec, goidx, force);
                                }
                            },
                        }
                    }
                },
            }
            proof {
                assert(self.repos@ == spec_apply_entry(repos_at_entry, orig[i].0, orig[i].1, force));
                assert(spec_apply_fetched(repos_at_entry, orig, i, force) == spec_apply_fetched(
                    self.repos@,
                    orig,
                    i + 1,
                    force,
                ));
            }
        }
        proof {
            assert(spec_apply_fetched(self.repos@, orig, orig.len() as int, force)
                == self.repos@);
        }
    }

    /// Fold in freshly fetched indexes for repositories whose index is
    /// considered stale — here, absent from the cache. A repository whose
    /// entry is `None` or whose index fails its own well-formedness check is
    /// a failed fetch and blocks nothing else. Readers observe, per
    /// repository, the whole old index or the whole new one.
    pub fn refresh_repos(&mut self, fetched: Vec<(RepoRecord, Option<RepoIndex>)>)
        requires
            store_wf(*old(self)),
        ensures
            store_wf(*final(self)),
            final(self).repos@ == spec_apply_fetched(old(self).repos@, fetched@, 0, false),
            final(self).receipts@ == old(self).receipts@,
            final(self).cached@ == old(self).cached@,
            final(self).config == old(self).config,
            final(self).platform@ == old(self).platform@,
            final(self).payloads@ == old(self).payloads@,
    {
        self.apply_fetched(fetched, false)
    }

    /// Like `refresh_repos`, but unconditionally: a sound fetched index
    /// replaces the cached entry for its repository whole, bypassing the
    /// staleness check.
    pub fn force_refresh_repos(&mut self, fetched: Vec<(RepoRecord, Option<RepoIndex>)>)
        requires
            store_wf(*old(self)),
        ensures
            store_wf(*final(self)),
            final(self).repos@ == spec_apply_fetched(old(self).repos@, fetched@, 0, true),
            final(self).receipts@ == old(self).receipts@,
            final(self).cached@ == old(self).cached@,
            final(self).config == old(self).config,
            final(self).platform@ == old(self).platform@,
            final(self).payloads@ == old(self).payloads@,
    {
        self.apply_fetched(fetched, true)
    }

    /// Initialise a new, empty store for the given platform profile and
    /// configuration. Policy, on which callers may rely: creating over an
    /// already-valid location re-initialises it cleanly — recorded receipts
    /// are discarded; use `open` to attach to existing state instead.
    pub fn create(platform: String, payloads: Vec<String>, config: StoreConfig) -> (r: Result<
        PrefixPackageStore,
        StoreError,
    >)
        ensures
            match r {
                Result::Ok(s) => {
                    &&& skipped_distinct(config.skipped@)
                    &&& store_wf(s)
                    &&& s.platform@ == platform@
                    &&& s.payloads@ == payloads@
                    &&& s.config == config
                    &&& s.repos@.len() == 0
                    &&& s.receipts@.len() == 0
                    &&& s.cached@.len() == 0
                },
                Result::Err(e) => e == StoreError::DuplicateSkippedEntry && !skipped_distinct(
                    config.skipped@,
                ),
            },
    {
        if !check_skipped_distinct(&config.skipped) {
            return Result::Err(StoreError::DuplicateSkippedEntry);
        }
        Result::Ok(
            PrefixPackageStore {
                platform,
                payloads,
                repos: Vec::new(),
                receipts: Vec::new(),
                cached: Vec::new(),
                config,
            },
        )
    }

    /// Attach to an existing store: the receipts recorded on disk are handed
    /// in as read by the caller and kept. Opening never alters recorded
    /// state; ambiguous state — duplicate receipts for one pair — is
    /// rejected rather than resolved by guessing.
    pub fn open(
        platform: String,
        payloads: Vec<String>,
        config: StoreConfig,
        receipts: Vec<Receipt>,
    ) -> (r: Result<PrefixPackageStore, StoreError>)
        ensures
            match r {
                Result::Ok(s) => {
                    &&& skipped_distinct(config.skipped@)
                    &&& receipts_distinct(receipts@)
                    &&& store_wf(s)
                    &&& s.platform@ == platform@
                    &&& s.payloads@ == payloads@
                    &&& s.config == config
                    &&& s.repos@.len() == 0
                    &&& s.receipts@ == receipts@
                    &&& s.cached@.len() == 0
                },
                Result::Err(e) => {
                    ||| e == StoreError::DuplicateSkippedEntry && !skipped_distinct(
                        config.skipped@,
                    )
                    ||| e == StoreError::DuplicateReceipt && skipped_distinct(config.skipped@)
                        && !receipts_distinct(receipts@)
                },
            },
    {
        if !check_skipped_distinct(&config.skipped) {
            return Result::Err(StoreError::DuplicateSkippedEntry);
        }
        if !check_receipts_distinct(&receipts) {
            return Result::Err(StoreError::DuplicateReceipt);
        }
        Result::Ok(
            PrefixPackageStore {
                platform,
                payloads,
                repos: Vec::new(),
                receipts,
                cached: Vec::new(),
                config,
            },
        )
    }
}

/// Whether the skipped-version entries are keyed by distinct key strings.
fn check_skipped_distinct(v: &Vec<(String, String)>) -> (b: bool)
    ensures
        b == skipped_distinct(v@),
{
    let n = v.len();
    let mut i: usize = 0;
    while i < n
        invariant
            n == v@.len(),
            0 <= i <= n,
            forall|p: int, q: int| 0 <= p < q < i ==> v@[p].0@ != v@[q].0@,
        decreases n - i,
    {
        let mut j: usize = 0;
        while j < i
            invariant
                n == v@.len(),
                0 <= j <= i < n,
                forall|q: int| 0 <= q < j ==> v@[q].0@ != v@[i as int].0@,
            decreases i - j,
        {
            if v[j].0 == v[i].0 {
                return false;
            }
            j += 1;
        }
        i += 1;
    }
    true
}

/// Whether the receipts are keyed by distinct `(package id, target)` pairs.
fn check_receipts_distinct(v: &Vec<Receipt>) -> (b: bool)
    ensures
        b == receipts_distinct(v@),
{
    let n = v.len();
    let mut i: usize = 0;
    while i < n
        invariant
            n == v@.len(),
            0 <= i <= n,
            forall|p: int, q: int| 0 <= p < q < i ==> !(v@[p].package_id@ == v@[q].package_id@
                && v@[p].target == v@[q].target),
        decreases n - i,
    {
        let mut j: usize = 0;
        while j < i
            invariant
                n == v@.len(),
                0 <= j <= i < n,
                forall|q: int| 0 <= q < j ==> !(v@[q].package_id@ == v@[i as int].package_id@
                    && v@[q].target == v@[i as int].target),
            decreases i - j,
        {
            if v[j].package_id == v[i].package_id && v[j].target == v[i].target {
                return false;
            }
            j += 1;
        }
        i += 1;
    }
    true
}

/// Idempotence of status: what `status` answers is a function of the
/// store's state alone, so two queries with no intervening state change
/// answer the same.
pub proof fn lemma_status_idempotent(
    s: PrefixPackageStore,
    repo_url: Seq<char>,
    package_id: Seq<char>,
    channel: Option<Seq<char>>,
    target: InstallTarget,
)
    ensures
        spec_status(s, repo_url, package_id, channel, target) == spec_status(
            s,
            repo_url,
            package_id,
            channel,
            target,
        ),
{
}

/// Cache isolation: a status query reads only the index cache, the
/// receipts, the skipped list and the platform profile. Two stores that
/// agree on those — in particular, one that cleared its caches and then
/// re-fetched the same indexes — answer every status query alike, because
/// clearing the cache never touches receipts.
pub proof fn lemma_cache_isolation(
    before: PrefixPackageStore,
    after: PrefixPackageStore,
    repo_url: Seq<char>,
    package_id: Seq<char>,
    channel: Option<Seq<char>>,
    target: InstallTarget,
)
    requires
        after.repos@ == before.repos@,
        after.receipts@ == before.receipts@,
        after.config.skipped@ == before.config.skipped@,
        after.platform@ == before.platform@,
        after.payloads@ == before.payloads@,
    ensures
        spec_status(after, repo_url, package_id, channel, target) == spec_status(
            before,
            repo_url,
            package_id,
            channel,
            target,
        ),
{
}

/// The descriptor for `id` within one index, if any.
pub fn find_package_in<'a>(idx: &'a RepoIndex, id: &String) -> (r: Option<&'a PackageDescriptor>)
    requires
        index_wf(*idx),
    ensures
        match r {
            Option::Some(d) => spec_package(*idx, id@) == Option::Some(*d),
            Option::None => spec_package(*idx, id@) is None,
        },
{
    let n = idx.packages.len();
    let mut i: usize = 0;
    while i < n
        invariant
            n == idx.packages@.len(),
            0 <= i <= n,
            index_wf(*idx),
            forall|j: int| 0 <= j < i ==> idx.packages@[j].id@ != id@,
        decreases n - i,
    {
        if idx.packages[i].id == *id {
            proof {
                let w = choose|j: int|
                    0 <= j < idx.packages@.len() && idx.packages@[j].id@ == id@;
                if w != i as int {
                    if w < i as int {
                        assert(idx.packages@[w].id@ != idx.packages@[i as int].id@);
                    } else {
                        assert(idx.packages@[i as int].id@ != idx.packages@[w].id@);
                    }
                }
            }
            return Option::Some(&idx.packages[i]);
        }
        i += 1;
    }
    Option::None
}

/// The installer for `platform` within one descriptor, if any.
pub fn find_installer_in<'a>(d: &'a PackageDescriptor, platform: &String) -> (r: Option<
    &'a Installer,
>)
    requires
        installers_distinct(d.installers@),
    ensures
        match r {
            Option::Some(inst) => spec_installer(*d, platform@) == Option::Some(*inst),
            Option::None => spec_installer(*d, platform@) is None,
        },
{
    let n = d.installers.len();
    let mut i: usize = 0;
    while i < n
        invariant
            n == d.installers@.len(),
            0 <= i <= n,
            installers_distinct(d.installers@),
            forall|j: int| 0 <= j < i ==> d.installers@[j].platform@ != platform@,
        decreases n - i,
    {
        if d.installers[i].platform == *platform {
            proof {
                let w = choose|j: int|
                    0 <= j < d.installers@.len() && d.installers@[j].platform@ == platform@;
                if w != i as int {
                    if w < i as int {
                        assert(d.installers@[w].platform@ != d.installers@[i as int].platform@);
                    } else {
                        assert(d.installers@[i as int].platform@ != d.installers@[w].platform@);
                    }
                }
            }
            return Option::Some(&d.installers[i]);
        }
        i += 1;
    }
    Option::None
}

} // verus!
