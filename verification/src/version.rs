use vstd::prelude::*;
use crate::key::{find_from, lemma_find_from, lemma_find_from_is, lemma_find_from_none};

verus! {

/// A parsed package version under the repositories' versioning scheme:
/// one or more dot-separated decimal numbers, compared numerically position
/// by position, missing positions counting as zero.
#[derive(Clone, Debug)]
pub struct Version {
    pub parts: Vec<u64>,
}

/// Outcome of comparing two versions.
#[derive(Clone, Copy, Debug, PartialEq, Eq, Structural)]
pub enum VersionOrdering {
    Less,
    Equal,
    Greater,
}

pub open spec fn is_digit(c: char) -> bool {
    c == '0' || c == '1' || c == '2' || c == '3' || c == '4' || c == '5' || c == '6' || c == '7'
        || c == '8' || c == '9'
}

/// Numeric value of a digit character; any other character counts as zero.
pub open spec fn digit_value(c: char) -> int {
    if c == '1' {
        1
    } else if c == '2' {
        2
    } else if c == '3' {
        3
    } else if c == '4' {
        4
    } else if c == '5' {
        5
    } else if c == '6' {
        6
    } else if c == '7' {
        7
    } else if c == '8' {
        8
    } else if c == '9' {
        9
    } else {
        0
    }
}

pub open spec fn all_digits(s: Seq<char>) -> bool {
    forall|j: int| 0 <= j < s.len() ==> is_digit(s[j])
}

/// Value of a string of digit characters read in base ten.
pub open spec fn digits_val(s: Seq<char>) -> int
    decreases s.len(),
{
    if s.len() == 0 {
        0
    } else {
        digits_val(s.drop_last()) * 10 + digit_value(s.last())
    }
}

/// A single version component: non-empty, all digits, and within `u64`.
pub open spec fn component_ok(s: Seq<char>) -> bool {
    s.len() > 0 && all_digits(s) && digits_val(s) <= u64::MAX
}

/// The rest of `s` from `from` on is a valid dot-separated version.
pub open spec fn valid_version_from(s: Seq<char>, from: int) -> bool
    decreases s.len() - from,
    via valid_version_from_decreases
{
    if !(0 <= from <= s.len()) {
        false
    } else {
        let j = find_from(s, from, '.');
        component_ok(s.subrange(from, j)) && (j == s.len() || valid_version_from(s, j + 1))
    }
}

#[via_fn]
proof fn valid_version_from_decreases(s: Seq<char>, from: int) {
    if 0 <= from <= s.len() {
        lemma_find_from(s, from, '.');
    }
}

/// The numeric components of the rest of `s` from `from` on.
pub open spec fn version_vals_from(s: Seq<char>, from: int) -> Seq<int>
    decreases s.len() - from,
    via version_vals_from_decreases
{
    if !(0 <= from <= s.len()) {
        Seq::empty()
    } else {
        let j = find_from(s, from, '.');
        if j == s.len() {
            seq![digits_val(s.subrange(from, j))]
        } else {
            seq![digits_val(s.subrange(from, j))] + version_vals_from(s, j + 1)
        }
    }
}

#[via_fn]
proof fn version_vals_from_decreases(s: Seq<char>, from: int) {
    if 0 <= from <= s.len() {
        lemma_find_from(s, from, '.');
    }
}

/// The value of a digit string is never negative.
pub proof fn lemma_digits_val_nonneg(s: Seq<char>)
    ensures
        digits_val(s) >= 0,
    decreases s.len(),
{
    if s.len() > 0 {
        lemma_digits_val_nonneg(s.drop_last());
    }
}

/// Extending a digit string to the right never lowers its value.
pub proof fn lemma_digits_val_prefix(s: Seq<char>, t: int)
    requires
        0 <= t <= s.len(),
    ensures
        digits_val(s) >= digits_val(s.subrange(0, t)),
    decreases s.len() - t,
{
    if t < s.len() {
        lemma_digits_val_prefix(s, t + 1);
        let a = s.subrange(0, t);
        let b = s.subrange(0, t + 1);
        assert(b.drop_last() =~= a);
        lemma_digits_val_nonneg(a);
    } else {
        assert(s.subrange(0, t) =~= s);
    }
}

/// The sequence shorn of its first element, or left alone when empty.
pub open spec fn step_tail(v: Seq<int>) -> Seq<int> {
    if v.len() > 0 {
        v.skip(1)
    } else {
        v
    }
}

/// The suffix of `v` from `i` on, or empty when `i` runs past the end.
pub open spec fn suffix_from(v: Seq<int>, i: int) -> Seq<int> {
    if 0 <= i < v.len() {
        v.skip(i)
    } else {
        Seq::empty()
    }
}

/// Numeric comparison of two component sequences, missing positions
/// counting as zero: negative for less, zero for equal, positive for greater.
pub open spec fn spec_cmp_parts(a: Seq<int>, b: Seq<int>) -> int
    decreases a.len() + b.len(),
{
    if a.len() == 0 && b.len() == 0 {
        0
    } else {
        let x = if a.len() > 0 { a[0] } else { 0 };
        let y = if b.len() > 0 { b[0] } else { 0 };
        if x < y {
            -1
        } else if x > y {
            1
        } else {
            spec_cmp_parts(step_tail(a), step_tail(b))
        }
    }
}

/// View of a parts vector as unbounded integers.
pub open spec fn vals_of(parts: Seq<u64>) -> Seq<int> {
    parts.map_values(|p: u64| p as int)
}

impl Version {
    /// Parse a dot-separated decimal version string. Exactly the strings in
    /// which every dot-separated component is a non-empty run of digits whose
    /// value fits in 64 bits are accepted; the result holds the component
    /// values in order.
    pub fn parse(s: &str) -> (r: Option<Version>)
        ensures
            match r {
                Option::Some(v) => valid_version_from(s@, 0) && vals_of(v.parts@)
                    == version_vals_from(s@, 0),
                Option::None => !valid_version_from(s@, 0),
            },
    {
        let n = s.unicode_len();
        let mut parts: Vec<u64> = Vec::new();
        let mut pos: usize = 0;
        proof {
            assert(vals_of(parts@) + version_vals_from(s@, 0) =~= version_vals_from(s@, 0));
        }
        loop
            invariant
                n == s@.len(),
                0 <= pos <= n,
                valid_version_from(s@, 0) <==> valid_version_from(s@, pos as int),
                valid_version_from(s@, pos as int) ==> version_vals_from(s@, 0) == vals_of(
                    parts@,
                ) + version_vals_from(s@, pos as int),
            decreases n - pos,
        {
            let mut j: usize = pos;
            while j < n && s.get_char(j) != '.'
                invariant
                    n == s@.len(),
                    pos <= j <= n,
                    forall|t: int| pos <= t < j ==> s@[t] != '.',
                decreases n - j,
            {
                j += 1;
            }
            proof {
                if j < n {
                    lemma_find_from_is(s@, pos as int, '.', j as int);
                } else {
                    lemma_find_from_none(s@, pos as int, '.');
                }
            }
            let ghost comp = s@.subrange(pos as int, j as int);
            if j == pos {
                return Option::None;
            }
            proof {
                assert(valid_version_from(s@, pos as int) == (component_ok(comp) && (j == n
                    || valid_version_from(s@, j + 1))));
            }
            let mut acc: u64 = 0;
            let mut t: usize = pos;
            while t < j
                invariant
                    n == s@.len(),
                    pos <= t <= j <= n,
                    pos < j,
                    comp == s@.subrange(pos as int, j as int),
                    valid_version_from(s@, 0) <==> valid_version_from(s@, pos as int),
                    valid_version_from(s@, pos as int) == (component_ok(comp) && (j == n
                        || valid_version_from(s@, j + 1))),
                    all_digits(s@.subrange(pos as int, t as int)),
                    acc == digits_val(s@.subrange(pos as int, t as int)),
                decreases j - t,
            {
                let ghost pre = s@.subrange(pos as int, t as int);
                let c = s.get_char(t);
                proof {
                    assert(s@.subrange(pos as int, t + 1) =~= pre.push(s@[t as int]));
                    assert(s@.subrange(pos as int, t + 1).drop_last() =~= pre);
                }
                let d: u64 = match c {
                    '0' => 0,
                    '1' => 1,
                    '2' => 2,
                    '3' => 3,
                    '4' => 4,
                    '5' => 5,
                    '6' => 6,
                    '7' => 7,
                    '8' => 8,
                    '9' => 9,
                    _ => {
                        proof {
                            assert(comp[t as int - pos as int] == s@[t as int]);
                            assert(!is_digit(comp[t as int - pos as int]));
                            assert(!component_ok(comp));
                        }
                        return Option::None;
                    },
                };
                if acc > (u64::MAX - d) / 10 {
                    proof {
                        let ext = s@.subrange(pos as int, t + 1);
                        assert(digits_val(ext) == acc * 10 + d);
                        assert(acc * 10 + d > u64::MAX) by (nonlinear_arith)
                            requires
                                acc > (u64::MAX - d) / 10,
                                d <= 9,
                        ;
                        lemma_digits_val_prefix(comp, t + 1 - pos as int);
                        assert(comp.subrange(0, t + 1 - pos as int) =~= ext);
                        assert(digits_val(comp) > u64::MAX);
                        assert(!component_ok(comp));
                    }
                    return Option::None;
                }
                acc = acc * 10 + d;
                t += 1;
            }
            proof {
                assert(comp =~= s@.subrange(pos as int, t as int));
                assert(component_ok(comp));
            }
            let ghost old_parts = parts@;
            parts.push(acc);
            proof {
                assert(parts@.drop_last() =~= old_parts);
                assert(vals_of(parts@) =~= vals_of(old_parts) + seq![acc as int]);
            }
            if j == n {
                proof {
                    assert(version_vals_from(s@, pos as int) =~= seq![digits_val(comp)]);
                    assert(vals_of(old_parts) + version_vals_from(s@, pos as int) =~= vals_of(
                        parts@,
                    ));
                }
                return Option::Some(Version { parts });
            }
            proof {
                assert(version_vals_from(s@, pos as int) =~= seq![digits_val(comp)]
                    + version_vals_from(s@, j + 1));
                assert(vals_of(old_parts) + version_vals_from(s@, pos as int) =~= vals_of(parts@)
                    + version_vals_from(s@, j + 1));
            }
            pos = j + 1;
        }
    }

    /// Compare two versions component by component, numerically, with missing
    /// trailing components counting as zero.
    pub fn cmp(&self, other: &Version) -> (r: VersionOrdering)
        ensures
            r is Less <==> spec_cmp_parts(vals_of(self.parts@), vals_of(other.parts@)) < 0,
            r is Equal <==> spec_cmp_parts(vals_of(self.parts@), vals_of(other.parts@)) == 0,
            r is Greater <==> spec_cmp_parts(vals_of(self.parts@), vals_of(other.parts@)) > 0,
    {
        let a = &self.parts;
        let b = &other.parts;
        let mut i: usize = 0;
        let ghost va = vals_of(a@);
        let ghost vb = vals_of(b@);
        proof {
            assert(suffix_from(va, 0) =~= va);
            assert(suffix_from(vb, 0) =~= vb);
        }
        while i < a.len() || i < b.len()
            invariant
                va == vals_of(self.parts@),
                vb == vals_of(other.parts@),
                a@ == self.parts@,
                b@ == other.parts@,
                0 <= i,
                spec_cmp_parts(va, vb) == spec_cmp_parts(
                    suffix_from(va, i as int),
                    suffix_from(vb, i as int),
                ),
            decreases a.len() + b.len() - i,
        {
            let x: u64 = if i < a.len() {
                a[i]
            } else {
                0
            };
            let y: u64 = if i < b.len() {
                b[i]
            } else {
                0
            };
            proof {
                let sa = suffix_from(va, i as int);
                let sb = suffix_from(vb, i as int);
                assert(sa.len() > 0 ==> sa[0] == va[i as int]);
                assert(sb.len() > 0 ==> sb[0] == vb[i as int]);
                assert(sa.len() > 0 ==> x == sa[0]);
                assert(sa.len() == 0 ==> x == 0);
                assert(sb.len() > 0 ==> y == sb[0]);
                assert(sb.len() == 0 ==> y == 0);
                assert(step_tail(sa) =~= suffix_from(va, i + 1));
                assert(step_tail(sb) =~= suffix_from(vb, i + 1));
            }
            if x < y {
                return VersionOrdering::Less;
            }
            if x > y {
                return VersionOrdering::Greater;
            }
            i += 1;
        }
        proof {
            assert(suffix_from(va, i as int).len() == 0);
            assert(suffix_from(vb, i as int).len() == 0);
        }
        VersionOrdering::Equal
    }
}

} // verus!
