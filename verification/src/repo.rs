use vstd::prelude::*;

verus! {

/// Identity of a repository: its url and the channel this client follows.
/// Distinct from the repository's contents, which live in a `RepoIndex`.
#[derive(Clone, Debug)]
pub struct RepoRecord {
    pub url: String,
    pub channel: Option<String>,
}

/// One installer variant of a package: the platform it serves, the payload
/// kind it ships, and where its artifact is fetched from.
#[derive(Clone, Debug)]
pub struct Installer {
    pub platform: String,
    pub payload_kind: String,
    pub url: String,
    pub size: u64,
}

/// A package as a repository index describes it: an id, the version the
/// repository offers, and one installer per platform.
#[derive(Clone, Debug)]
pub struct PackageDescriptor {
    pub id: String,
    pub version: String,
    pub installers: Vec<Installer>,
}

/// The parsed contents of one repository: its package descriptors.
#[derive(Clone, Debug)]
pub struct RepoIndex {
    pub packages: Vec<PackageDescriptor>,
}

/// Installer platforms within one descriptor are pairwise distinct.
pub open spec fn installers_distinct(installers: Seq<Installer>) -> bool {
    forall|i: int, j: int|
        0 <= i < j < installers.len() ==> installers[i].platform@ != installers[j].platform@
}

/// Package ids within an index are pairwise distinct and every descriptor
/// keeps its installer platforms distinct.
pub open spec fn index_wf(idx: RepoIndex) -> bool {
    &&& forall|i: int, j: int|
        0 <= i < j < idx.packages@.len() ==> idx.packages@[i].id@ != idx.packages@[j].id@
    &&& forall|i: int|
        0 <= i < idx.packages@.len() ==> installers_distinct(#[trigger] idx.packages@[i].installers@)
}

/// There is a descriptor for `id` in the index.
pub open spec fn has_package(idx: RepoIndex, id: Seq<char>) -> bool {
    exists|i: int| 0 <= i < idx.packages@.len() && idx.packages@[i].id@ == id
}

/// The descriptor for `id` in the index.
pub open spec fn package_of(idx: RepoIndex, id: Seq<char>) -> PackageDescriptor
    recommends
        has_package(idx, id),
{
    idx.packages@[choose|i: int| 0 <= i < idx.packages@.len() && idx.packages@[i].id@ == id]
}

/// Look up a descriptor by package id.
pub open spec fn spec_package(idx: RepoIndex, id: Seq<char>) -> Option<PackageDescriptor> {
    if has_package(idx, id) {
        Option::Some(package_of(idx, id))
    } else {
        Option::None
    }
}

/// There is an installer for `platform` in the descriptor.
pub open spec fn has_installer(d: PackageDescriptor, platform: Seq<char>) -> bool {
    exists|i: int| 0 <= i < d.installers@.len() && d.installers@[i].platform@ == platform
}

/// The installer for `platform` in the descriptor.
pub open spec fn installer_of(d: PackageDescriptor, platform: Seq<char>) -> Installer
    recommends
        has_installer(d, platform),
{
    d.installers@[choose|i: int|
        0 <= i < d.installers@.len() && d.installers@[i].platform@ == platform]
}

/// Look up an installer by platform.
pub open spec fn spec_installer(d: PackageDescriptor, platform: Seq<char>) -> Option<Installer> {
    if has_installer(d, platform) {
        Option::Some(installer_of(d, platform))
    } else {
        Option::None
    }
}

impl RepoIndex {
    /// Whether this index is well formed: package ids distinct, and installer
    /// platforms distinct within each descriptor. Indexes that fail this
    /// check are treated as failed fetches.
    pub fn check_wf(&self) -> (b: bool)
        ensures
            b == index_wf(*self),
    {
        let n = self.packages.len();
        let mut i: usize = 0;
        while i < n
            invariant
                n == self.packages@.len(),
                0 <= i <= n,
                forall|p: int, q: int| 0 <= p < q < i ==> self.packages@[p].id@
                    != self.packages@[q].id@,
                forall|p: int| 0 <= p < i ==> installers_distinct(
                    #[trigger] self.packages@[p].installers@,
                ),
            decreases n - i,
        {
            let mut j: usize = 0;
            while j < i
                invariant
                    n == self.packages@.len(),
                    0 <= j <= i < n,
                    forall|q: int| 0 <= q < j ==> self.packages@[q].id@ != self.packages@[
                        i as int
                    ].id@,
                decreases i - j,
            {
                if self.packages[j].id == self.packages[i].id {
                    return false;
                }
                j += 1;
            }
            let m = self.packages[i].installers.len();
            let mut p: usize = 0;
            while p < m
                invariant
                    n == self.packages@.len(),
                    0 <= i < n,
                    m == self.packages@[i as int].installers@.len(),
                    0 <= p <= m,
                    forall|x: int, y: int| 0 <= x < y < p ==> self.packages@[
                        i as int
                    ].installers@[x].platform@ != self.packages@[i as int].installers@[y].platform@,
                decreases m - p,
            {
                let mut q: usize = 0;
                while q < p
                    invariant
                        n == self.packages@.len(),
                        0 <= i < n,
                        m == self.packages@[i as int].installers@.len(),
                        0 <= q <= p < m,
                        forall|y: int| 0 <= y < q ==> self.packages@[i as int].installers@[
                            y
                        ].platform@ != self.packages@[i as int].installers@[p as int].platform@,
                    decreases p - q,
                {
                    if self.packages[i].installers[q].platform == self.packages[i].installers[
                        p
                    ].platform {
                        return false;
                    }
                    q += 1;
                }
                p += 1;
            }
            i += 1;
        }
        true
    }
}

/// Coarse description of a repository, as its own index document announces
/// it: identity, display names and the filtering scheme it uses.
#[derive(Clone, Debug)]
pub struct Repository {
    pub _context: Option<String>,
    pub _type: Option<String>,
    pub agent: Option<RepositoryAgent>,
    pub base: String,
    pub name: Vec<(String, String)>,
    pub description: Vec<(String, String)>,
    pub primary_filter: String,
    pub channels: Vec<String>,
    pub categories: Vec<(String, Vec<(String, String)>)>,
}

/// The software agent that produced a repository index.
#[derive(Clone, Debug)]
pub struct RepositoryAgent {
    pub _type: Option<String>,
    pub name: String,
    pub version: String,
    pub url: Option<String>,
}

impl core::default::Default for RepositoryAgent {
    /// The agent entry this library writes for itself.
    fn default() -> (r: RepositoryAgent)
        ensures
            r._type matches Option::Some(t) && t@ == "RepositoryAgent"@,
            r.name@ == "pahkat"@,
            r.version@ == "0.1.0"@,
            r.url matches Option::Some(u) && u@ == "https://github.com/divvun/pahkat"@,
    {
        RepositoryAgent {
            _type: Option::Some(String::from_str("RepositoryAgent")),
            name: String::from_str("pahkat"),
            version: String::from_str("0.1.0"),
            url: Option::Some(String::from_str("https://github.com/divvun/pahkat")),
        }
    }
}

} // verus!
