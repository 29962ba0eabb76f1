use vstd::prelude::*;
use crate::repo::RepoRecord;

verus! {

/// A configured location: either a plain file-system url or a
/// platform-managed container url.
#[derive(Clone, Debug)]
pub enum ConfigPath {
    File(String),
    Container(String),
}

/// Persisted store configuration: the enabled repositories, where cached
/// artifacts and temporary files live, and which versions the user skipped,
/// recorded as pairs of canonical key string and version string.
#[derive(Clone, Debug)]
pub struct StoreConfig {
    pub repos: Vec<RepoRecord>,
    pub cache_base: ConfigPath,
    pub tmp_base: ConfigPath,
    pub skipped: Vec<(String, String)>,
}

/// Skipped entries are keyed by pairwise distinct canonical key strings.
pub open spec fn skipped_distinct(skipped: Seq<(String, String)>) -> bool {
    forall|i: int, j: int| 0 <= i < j < skipped.len() ==> skipped[i].0@ != skipped[j].0@
}

/// There is a skipped entry for the canonical key string `k`.
pub open spec fn has_skipped(skipped: Seq<(String, String)>, k: Seq<char>) -> bool {
    exists|i: int| 0 <= i < skipped.len() && skipped[i].0@ == k
}

/// The version recorded as skipped for `k`.
pub open spec fn skipped_of(skipped: Seq<(String, String)>, k: Seq<char>) -> Seq<char>
    recommends
        has_skipped(skipped, k),
{
    skipped[choose|i: int| 0 <= i < skipped.len() && skipped[i].0@ == k].1@
}

/// Look up the skipped version for `k`.
pub open spec fn spec_skipped(skipped: Seq<(String, String)>, k: Seq<char>) -> Option<Seq<char>> {
    if has_skipped(skipped, k) {
        Option::Some(skipped_of(skipped, k))
    } else {
        Option::None
    }
}

impl StoreConfig {
    /// A fresh configuration with no repositories and nothing skipped.
    pub fn new(cache_base: ConfigPath, tmp_base: ConfigPath) -> (r: StoreConfig)
        ensures
            r.repos@.len() == 0,
            r.skipped@.len() == 0,
            r.cache_base == cache_base,
            r.tmp_base == tmp_base,
            skipped_distinct(r.skipped@),
    {
        StoreConfig { repos: Vec::new(), cache_base, tmp_base, skipped: Vec::new() }
    }

    /// Enable one more repository. The caller decides order; duplicates are
    /// the caller's to avoid and harmless to lookups.
    pub fn add_repo(&mut self, record: RepoRecord)
        ensures
            final(self).repos@ == old(self).repos@.push(record),
            final(self).skipped@ == old(self).skipped@,
            final(self).cache_base == old(self).cache_base,
            final(self).tmp_base == old(self).tmp_base,
    {
        self.repos.push(record);
    }

    /// The version skipped for the canonical key string `k`, if any.
    pub fn skipped_version(&self, k: &String) -> (r: Option<&String>)
        requires
            skipped_distinct(self.skipped@),
        ensures
            match r {
                Option::Some(v) => spec_skipped(self.skipped@, k@) == Option::Some(v@),
                Option::None => spec_skipped(self.skipped@, k@) is None,
            },
    {
        let n = self.skipped.len();
        let mut i: usize = 0;
        while i < n
            invariant
                n == self.skipped@.len(),
                0 <= i <= n,
                skipped_distinct(self.skipped@),
                forall|j: int| 0 <= j < i ==> self.skipped@[j].0@ != k@,
            decreases n - i,
        {
            if self.skipped[i].0 == *k {
                proof {
                    let w = choose|j: int|
                        0 <= j < self.skipped@.len() && self.skipped@[j].0@ == k@;
                    if w != i as int {
                        assert(self.skipped@[w].0@ != self.skipped@[i as int].0@);
                    }
                }
                return Option::Some(&self.skipped[i].1);
            }
            i += 1;
        }
        Option::None
    }

    /// Record that the version `version` of the package with canonical key
    /// string `k` is skipped, replacing any earlier entry for `k`.
    pub fn add_skipped_version(&mut self, k: String, version: String)
        requires
            skipped_distinct(old(self).skipped@),
        ensures
            skipped_distinct(final(self).skipped@),
            spec_skipped(final(self).skipped@, k@) == Option::Some(version@),
            forall|other: Seq<char>| other != k@ ==> spec_skipped(final(self).skipped@, other)
                == spec_skipped(old(self).skipped@, other),
            final(self).repos@ == old(self).repos@,
            final(self).cache_base == old(self).cache_base,
            final(self).tmp_base == old(self).tmp_base,
    {
        let n = self.skipped.len();
        let mut i: usize = 0;
        while i < n
            invariant
                n == self.skipped@.len(),
                0 <= i <= n,
                skipped_distinct(self.skipped@),
                forall|j: int| 0 <= j < i ==> self.skipped@[j].0@ != k@,
                self.skipped@ == old(self).skipped@,
                self.repos@ == old(self).repos@,
                self.cache_base == old(self).cache_base,
                self.tmp_base == old(self).tmp_base,
            decreases n - i,
        {
            if self.skipped[i].0 == k {
                let ghost old_skipped = self.skipped@;
                self.skipped.set(i, (k, version));
                proof {
                    assert(self.skipped@[i as int].0@ == old_skipped[i as int].0@);
                    assert forall|p: int, q: int| 0 <= p < q < self.skipped@.len() implies self
                        .skipped@[p].0@ != self.skipped@[q].0@ by {
                        assert(old_skipped[p].0@ != old_skipped[q].0@);
                    }
                    lemma_lookup_at(self.skipped@, i as int);
                    assert forall|other: Seq<char>| other != self.skipped@[i as int].0@ implies
                        spec_skipped(self.skipped@, other) == spec_skipped(old_skipped, other) by {
                        lemma_lookup_other(old_skipped, self.skipped@, i as int, other);
                    }
                }
                return ;
            }
            i += 1;
        }
        let ghost old_skipped = self.skipped@;
        self.skipped.push((k, version));
        proof {
            lemma_lookup_at(self.skipped@, n as int);
            assert forall|other: Seq<char>| other != self.skipped@[n as int].0@ implies
                spec_skipped(self.skipped@, other) == spec_skipped(old_skipped, other) by {
            lemma_lookup_other(old_skipped, self.skipped@, n as int, other);
            }
        }
    }
}

/// With distinct keys, a lookup of the key at position `i` answers the
/// version at position `i`.
proof fn lemma_lookup_at(skipped: Seq<(String, String)>, i: int)
    requires
        skipped_distinct(skipped),
        0 <= i < skipped.len(),
    ensures
        spec_skipped(skipped, skipped[i].0@) == Option::Some(skipped[i].1@),
{
    let k = skipped[i].0@;
    assert(has_skipped(skipped, k));
    let w = choose|j: int| 0 <= j < skipped.len() && skipped[j].0@ == k;
    if w != i {
        assert(skipped[w].0@ != skipped[i].0@);
    }
}

/// Changing or appending the entry at position `i` leaves lookups of every
/// other key unchanged.
proof fn lemma_lookup_other(
    before: Seq<(String, String)>,
    after: Seq<(String, String)>,
    i: int,
    other: Seq<char>,
)
    requires
        skipped_distinct(before),
        skipped_distinct(after),
        0 <= i < after.len(),
        before.len() == after.len() || before.len() + 1 == after.len() && i == before.len(),
        forall|j: int| 0 <= j < after.len() && j != i ==> j < before.len() && after[j] == before[j],
        before.len() == after.len() ==> before[i].0@ == after[i].0@,
        other != after[i].0@,
    ensures
        spec_skipped(after, other) == spec_skipped(before, other),
{
    if has_skipped(after, other) {
        let wa = choose|j: int| 0 <= j < after.len() && after[j].0@ == other;
        assert(wa != i);
        assert(before[wa].0@ == other);
        assert(has_skipped(before, other));
        let wb = choose|j: int| 0 <= j < before.len() && before[j].0@ == other;
        if wb != wa {
            if wb < wa {
                assert(after[wb].0@ != after[wa].0@);
            } else {
                assert(after[wa].0@ != after[wb].0@);
            }
        }
        assert(spec_skipped(after, other) == Option::Some(after[wa].1@));
        assert(spec_skipped(before, other) == Option::Some(before[wb].1@));
    } else {
        if has_skipped(before, other) {
            let wb = choose|j: int| 0 <= j < before.len() && before[j].0@ == other;
            if before.len() == after.len() {
                if wb == i {
                    assert(before[i].0@ == after[i].0@);
                }
                assert(after[wb].0@ == other);
            } else {
                assert(after[wb] == before[wb]);
            }
            assert(has_skipped(after, other));
        }
    }
}

} // verus!
