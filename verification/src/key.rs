use vstd::prelude::*;

verus! {

/// A canonical, immutable identifier binding a repository, a package id and an
/// optional channel. It round-trips losslessly through a single canonical
/// string form: `repository_url '#' package_id` with an optional
/// `'#' channel` suffix, where none of the three fields contains `'#'`.
#[derive(Clone, Debug)]
pub struct PackageKey {
    pub repository_url: String,
    pub package_id: String,
    pub channel: Option<String>,
}

/// Why a string is not a canonical package key.
#[derive(Clone, Copy, Debug, PartialEq, Eq, Structural)]
pub enum ParseError {
    /// No `'#'` separator occurs in the string.
    MissingSeparator,
    /// The repository part before the first `'#'` is empty.
    EmptyRepositoryUrl,
    /// The package id between the first and second `'#'` is empty.
    EmptyPackageId,
    /// The channel after the second `'#'` is empty.
    EmptyChannel,
    /// A third `'#'` occurs inside the channel part.
    ExtraSeparator,
}

/// Index of the first occurrence of `c` in `s` at or after `from`,
/// or `s.len()` if there is none.
pub open spec fn find_from(s: Seq<char>, from: int, c: char) -> int
    decreases s.len() - from,
{
    if from < 0 || from >= s.len() {
        s.len() as int
    } else if s[from] == c {
        from
    } else {
        find_from(s, from + 1, c)
    }
}

/// `s` contains no occurrence of `c`.
pub open spec fn free_of(s: Seq<char>, c: char) -> bool {
    forall|j: int| 0 <= j < s.len() ==> s[j] != c
}

/// The fields of a key are each non-empty and free of the separator.
pub open spec fn key_wf(k: PackageKey) -> bool {
    &&& k.repository_url@.len() > 0
    &&& free_of(k.repository_url@, '#')
    &&& k.package_id@.len() > 0
    &&& free_of(k.package_id@, '#')
    &&& match k.channel {
        Option::Some(c) => c@.len() > 0 && free_of(c@, '#'),
        Option::None => true,
    }
}

/// The canonical string of a key's parts.
pub open spec fn canonical_parts(
    repo: Seq<char>,
    id: Seq<char>,
    channel: Option<Seq<char>>,
) -> Seq<char> {
    repo + seq!['#'] + id + match channel {
        Option::Some(c) => seq!['#'] + c,
        Option::None => Seq::<char>::empty(),
    }
}

/// The view of a key's channel field.
pub open spec fn channel_view(k: PackageKey) -> Option<Seq<char>> {
    match k.channel {
        Option::Some(c) => Option::Some(c@),
        Option::None => Option::None,
    }
}

/// The canonical string of a key.
pub open spec fn canonical_seq(k: PackageKey) -> Seq<char> {
    canonical_parts(k.repository_url@, k.package_id@, channel_view(k))
}

/// The parts that parsing a canonical key string yields, or `None` where the
/// string is not a canonical key string.
pub open spec fn spec_parse_parts(s: Seq<char>) -> Option<(Seq<char>, Seq<char>, Option<Seq<char>>)> {
    let a = find_from(s, 0, '#');
    let b = find_from(s, a + 1, '#');
    let c = find_from(s, b + 1, '#');
    if a == s.len() || a == 0 {
        Option::None
    } else if b == a + 1 {
        Option::None
    } else if b == s.len() {
        Option::Some((s.subrange(0, a), s.subrange(a + 1, s.len() as int), Option::None))
    } else if c < s.len() {
        Option::None
    } else if b + 1 == s.len() {
        Option::None
    } else {
        Option::Some((
            s.subrange(0, a),
            s.subrange(a + 1, b),
            Option::Some(s.subrange(b + 1, s.len() as int)),
        ))
    }
}

/// The error that parsing a non-canonical string reports.
pub open spec fn spec_parse_error(s: Seq<char>) -> ParseError {
    let a = find_from(s, 0, '#');
    let b = find_from(s, a + 1, '#');
    let c = find_from(s, b + 1, '#');
    if a == s.len() {
        ParseError::MissingSeparator
    } else if a == 0 {
        ParseError::EmptyRepositoryUrl
    } else if b == a + 1 {
        ParseError::EmptyPackageId
    } else if b < s.len() && c < s.len() {
        ParseError::ExtraSeparator
    } else {
        ParseError::EmptyChannel
    }
}

/// Everything strictly before the found position differs from `c`, the found
/// position (if inside the string) holds `c`, and the position stays in range.
pub proof fn lemma_find_from(s: Seq<char>, from: int, c: char)
    requires
        0 <= from <= s.len(),
    ensures
        from <= find_from(s, from, c) <= s.len(),
        find_from(s, from, c) < s.len() ==> s[find_from(s, from, c)] == c,
        forall|j: int| from <= j < find_from(s, from, c) ==> s[j] != c,
    decreases s.len() - from,
{
    if from < s.len() && s[from] != c {
        lemma_find_from(s, from + 1, c);
    }
}

/// A position known to hold the first `c` at or after `from` is what
/// `find_from` finds.
pub proof fn lemma_find_from_is(s: Seq<char>, from: int, c: char, k: int)
    requires
        0 <= from <= k < s.len(),
        s[k] == c,
        forall|j: int| from <= j < k ==> s[j] != c,
    ensures
        find_from(s, from, c) == k,
    decreases s.len() - from,
{
    if from < k {
        lemma_find_from_is(s, from + 1, c, k);
    }
}

/// Where no `c` occurs at or after `from`, `find_from` answers `s.len()`.
pub proof fn lemma_find_from_none(s: Seq<char>, from: int, c: char)
    requires
        0 <= from <= s.len(),
        forall|j: int| from <= j < s.len() ==> s[j] != c,
    ensures
        find_from(s, from, c) == s.len(),
    decreases s.len() - from,
{
    if from < s.len() {
        lemma_find_from_none(s, from + 1, c);
    }
}

impl PackageKey {
    /// Parse a canonical key string. Exactly the strings of the form
    /// `repo '#' id` or `repo '#' id '#' channel`, with all three parts
    /// non-empty and separator-free, are accepted; the result's canonical
    /// string is the input itself.
    pub fn parse(s: &str) -> (r: Result<PackageKey, ParseError>)
        ensures
            match r {
                Result::Ok(k) => {
                    &&& key_wf(k)
                    &&& canonical_seq(k) == s@
                    &&& spec_parse_parts(s@) matches Option::Some(p)
                        && p.0 == k.repository_url@
                        && p.1 == k.package_id@
                        && p.2 == (match k.channel {
                            Option::Some(c) => Option::Some(c@),
                            Option::None => Option::None::<Seq<char>>,
                        })
                },
                Result::Err(e) => {
                    &&& spec_parse_parts(s@) is None
                    &&& e == spec_parse_error(s@)
                },
            },
    {
        let n = s.unicode_len();
        let mut i: usize = 0;
        while i < n && s.get_char(i) != '#'
            invariant
                n == s@.len(),
                0 <= i <= n,
                forall|j: int| 0 <= j < i ==> s@[j] != '#',
            decreases n - i,
        {
            i += 1;
        }
        proof {
            if i < n {
                lemma_find_from_is(s@, 0, '#', i as int);
            } else {
                lemma_find_from_none(s@, 0, '#');
            }
        }
        if i == n {
            return Result::Err(ParseError::MissingSeparator);
        }
        if i == 0 {
            return Result::Err(ParseError::EmptyRepositoryUrl);
        }
        let mut b: usize = i + 1;
        while b < n && s.get_char(b) != '#'
            invariant
                n == s@.len(),
                i + 1 <= b <= n,
                forall|j: int| i + 1 <= j < b ==> s@[j] != '#',
            decreases n - b,
        {
            b += 1;
        }
        proof {
            if b < n {
                lemma_find_from_is(s@, i + 1, '#', b as int);
            } else {
                lemma_find_from_none(s@, i + 1, '#');
            }
        }
        if b == i + 1 {
            return Result::Err(ParseError::EmptyPackageId);
        }
        let repo = String::from_str(s.substring_char(0, i));
        if b == n {
            let id = String::from_str(s.substring_char(i + 1, n));
            let k = PackageKey {
                repository_url: repo,
                package_id: id,
                channel: Option::None,
            };
            proof {
                assert(canonical_seq(k) =~= s@);
            }
            return Result::Ok(k);
        }
        let mut c: usize = b + 1;
        while c < n && s.get_char(c) != '#'
            invariant
                n == s@.len(),
                b + 1 <= c <= n,
                forall|j: int| b + 1 <= j < c ==> s@[j] != '#',
            decreases n - c,
        {
            c += 1;
        }
        proof {
            if c < n {
                lemma_find_from_is(s@, b + 1, '#', c as int);
            } else {
                lemma_find_from_none(s@, b + 1, '#');
            }
        }
        if c < n {
            return Result::Err(ParseError::ExtraSeparator);
        }
        if b + 1 == n {
            return Result::Err(ParseError::EmptyChannel);
        }
        let id = String::from_str(s.substring_char(i + 1, b));
        let channel = String::from_str(s.substring_char(b + 1, n));
        let k = PackageKey {
            repository_url: repo,
            package_id: id,
            channel: Option::Some(channel),
        };
        proof {
            assert(canonical_seq(k) =~= s@);
        }
        Result::Ok(k)
    }

    /// A copy of this key, field by field. Written out because a derived
    /// clone promises nothing about the copy's contents.
    pub fn duplicate(&self) -> (k: PackageKey)
        ensures
            k.repository_url@ == self.repository_url@,
            k.package_id@ == self.package_id@,
            channel_view(k) == channel_view(*self),
            canonical_seq(k) == canonical_seq(*self),
    {
        PackageKey {
            repository_url: self.repository_url.clone(),
            package_id: self.package_id.clone(),
            channel: match &self.channel {
                Option::Some(c) => Option::Some(c.clone()),
                Option::None => Option::None,
            },
        }
    }

    /// The canonical string of this key.
    pub fn to_string(&self) -> (r: String)
        ensures
            r@ == canonical_seq(*self),
    {
        proof {
            reveal_strlit("#");
        }
        let mut out = self.repository_url.clone();
        out.append("#");
        out.append(self.package_id.as_str());
        match &self.channel {
            Option::Some(c) => {
                out.append("#");
                out.append(c.as_str());
            },
            Option::None => {},
        }
        proof {
            assert(out@ =~= canonical_seq(*self));
        }
        out
    }
}

/// Round-trip, string side: a string that parses is exactly the canonical
/// string of the parts it parses to.
pub proof fn lemma_parse_then_print(s: Seq<char>)
    requires
        spec_parse_parts(s) is Some,
    ensures
        ({
            let p = spec_parse_parts(s).unwrap();
            canonical_parts(p.0, p.1, p.2) == s
        }),
{
    let a = find_from(s, 0, '#');
    let b = find_from(s, a + 1, '#');
    lemma_find_from(s, 0, '#');
    lemma_find_from(s, a + 1, '#');
    let p = spec_parse_parts(s).unwrap();
    assert(canonical_parts(p.0, p.1, p.2) =~= s);
}

/// Round-trip, key side: the canonical string of well-formed parts parses
/// back to exactly those parts. With `lemma_parse_then_print` this says the
/// canonical form is lossless and unique: one string per logical key.
pub proof fn lemma_print_then_parse(repo: Seq<char>, id: Seq<char>, channel: Option<Seq<char>>)
    requires
        repo.len() > 0,
        free_of(repo, '#'),
        id.len() > 0,
        free_of(id, '#'),
        match channel {
            Option::Some(c) => c.len() > 0 && free_of(c, '#'),
            Option::None => true,
        },
    ensures
        spec_parse_parts(canonical_parts(repo, id, channel)) == Option::Some((repo, id, channel)),
{
    let s = canonical_parts(repo, id, channel);
    let a = repo.len() as int;
    assert(s[a] == '#');
    lemma_find_from_is(s, 0, '#', a);
    match channel {
        Option::Some(c) => {
            let b = a + 1 + id.len() as int;
            assert(s[b] == '#');
            assert(forall|j: int| a + 1 <= j < b ==> s[j] == id[j - (a + 1)] && s[j] != '#');
            lemma_find_from_is(s, a + 1, '#', b);
            assert(forall|j: int| b + 1 <= j < s.len() ==> s[j] == c[j - (b + 1)] && s[j] != '#');
            lemma_find_from_none(s, b + 1, '#');
            let p = spec_parse_parts(s).unwrap();
            assert(p.0 =~= repo);
            assert(p.1 =~= id);
            assert(p.2.unwrap() =~= c);
        },
        Option::None => {
            assert(forall|j: int| a + 1 <= j < s.len() ==> s[j] == id[j - (a + 1)] && s[j] != '#');
            lemma_find_from_none(s, a + 1, '#');
            let p = spec_parse_parts(s).unwrap();
            assert(p.0 =~= repo);
            assert(p.1 =~= id);
        },
    }
}

/// Two well-formed keys with the same canonical string agree field by field.
pub proof fn lemma_canonical_injective(k1: PackageKey, k2: PackageKey)
    requires
        key_wf(k1),
        key_wf(k2),
        canonical_seq(k1) == canonical_seq(k2),
    ensures
        k1.repository_url@ == k2.repository_url@,
        k1.package_id@ == k2.package_id@,
        match (k1.channel, k2.channel) {
            (Option::Some(c1), Option::Some(c2)) => c1@ == c2@,
            (Option::None, Option::None) => true,
            _ => false,
        },
{
    let ch1 = match k1.channel {
        Option::Some(c) => Option::Some(c@),
        Option::None => Option::None::<Seq<char>>,
    };
    let ch2 = match k2.channel {
        Option::Some(c) => Option::Some(c@),
        Option::None => Option::None::<Seq<char>>,
    };
    lemma_print_then_parse(k1.repository_url@, k1.package_id@, ch1);
    lemma_print_then_parse(k2.repository_url@, k2.package_id@, ch2);
}

} // verus!
