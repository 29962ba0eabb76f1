use vstd::prelude::*;
use crate::defaults::str_eq;
use crate::key::{find_from, lemma_find_from_is, lemma_find_from_none};
use crate::models::PackageCount;
use crate::repo::PackageDescriptor;

verus! {

/// The token of a `Bearer` authorization header: the header must be exactly
/// two space-separated parts, the first of them `Bearer`; the second part is
/// the token, possibly empty.
pub open spec fn spec_bearer_token(s: Seq<char>) -> Option<Seq<char>> {
    let p = find_from(s, 0, ' ');
    if p == s.len() {
        Option::None
    } else if find_from(s, p + 1, ' ') < s.len() {
        Option::None
    } else if s.subrange(0, p) == "Bearer"@ {
        Option::Some(s.subrange(p + 1, s.len() as int))
    } else {
        Option::None
    }
}

/// Extract the bearer token from an authorization header, or nothing where
/// the header is not of the exact `Bearer <token>` shape.
pub fn parse_bearer_token(header: &str) -> (r: Option<String>)
    ensures
        match r {
            Option::Some(t) => spec_bearer_token(header@) == Option::Some(t@),
            Option::None => spec_bearer_token(header@) is None,
        },
{
    let n = header.unicode_len();
    let mut p: usize = 0;
    while p < n && header.get_char(p) != ' '
        invariant
            n == header@.len(),
            0 <= p <= n,
            forall|j: int| 0 <= j < p ==> header@[j] != ' ',
        decreases n - p,
    {
        p += 1;
    }
    proof {
        if p < n {
            lemma_find_from_is(header@, 0, ' ', p as int);
        } else {
            lemma_find_from_none(header@, 0, ' ');
        }
    }
    if p == n {
        return Option::None;
    }
    let mut q: usize = p + 1;
    while q < n && header.get_char(q) != ' '
        invariant
            n == header@.len(),
            p + 1 <= q <= n,
            forall|j: int| p + 1 <= j < q ==> header@[j] != ' ',
        decreases n - q,
    {
        q += 1;
    }
    proof {
        if q < n {
            lemma_find_from_is(header@, p + 1, ' ', q as int);
        } else {
            lemma_find_from_none(header@, p + 1, ' ');
        }
    }
    if q < n {
        return Option::None;
    }
    let head = header.substring_char(0, p);
    if !str_eq(head, "Bearer") {
        return Option::None;
    }
    Option::Some(String::from_str(header.substring_char(p + 1, n)))
}

/// Path segments of the repository's own index document.
pub fn repo_index_segments() -> (r: Vec<String>)
    ensures
        r@.len() == 1,
        r@[0]@ == "index.json"@,
{
    let mut v: Vec<String> = Vec::new();
    v.push(String::from_str("index.json"));
    v
}

/// Path segments of the all-packages index document.
pub fn packages_index_segments() -> (r: Vec<String>)
    ensures
        r@.len() == 2,
        r@[0]@ == "packages"@,
        r@[1]@ == "index.json"@,
{
    let mut v: Vec<String> = Vec::new();
    v.push(String::from_str("packages"));
    v.push(String::from_str("index.json"));
    v
}

/// Path segments of one package's index document.
pub fn packages_package_index_segments(package_id: String) -> (r: Vec<String>)
    ensures
        r@.len() == 3,
        r@[0]@ == "packages"@,
        r@[1]@ == package_id@,
        r@[2]@ == "index.json"@,
{
    let mut v: Vec<String> = Vec::new();
    v.push(String::from_str("packages"));
    v.push(package_id);
    v.push(String::from_str("index.json"));
    v
}

/// Path segments of the virtual-packages index document.
pub fn virtuals_index_segments() -> (r: Vec<String>)
    ensures
        r@.len() == 2,
        r@[0]@ == "virtuals"@,
        r@[1]@ == "index.json"@,
{
    let mut v: Vec<String> = Vec::new();
    v.push(String::from_str("virtuals"));
    v.push(String::from_str("index.json"));
    v
}

/// Path segments of one virtual package's index document.
pub fn virtuals_package_index_segments(package_id: String) -> (r: Vec<String>)
    ensures
        r@.len() == 3,
        r@[0]@ == "virtuals"@,
        r@[1]@ == package_id@,
        r@[2]@ == "index.json"@,
{
    let mut v: Vec<String> = Vec::new();
    v.push(String::from_str("virtuals"));
    v.push(package_id);
    v.push(String::from_str("index.json"));
    v
}

/// How an upload request is answered.
#[derive(Clone, Copy, Debug, PartialEq, Eq, Structural)]
pub enum UploadOutcome {
    Unauthorized,
    BadRequest,
    Created,
}

/// The upload handler's decision: no or malformed authorization, or a token
/// the database rejects, is unauthorized; unparseable upload parameters or
/// a tarball installer — which uploads do not accept — are bad requests;
/// everything else is created.
pub open spec fn spec_upload_outcome(
    header: Option<Seq<char>>,
    token_valid: bool,
    params_ok: bool,
    is_tarball: bool,
) -> UploadOutcome {
    match header {
        Option::None => UploadOutcome::Unauthorized,
        Option::Some(h) => match spec_bearer_token(h) {
            Option::None => UploadOutcome::Unauthorized,
            Option::Some(_) => {
                if !token_valid {
                    UploadOutcome::Unauthorized
                } else if !params_ok {
                    UploadOutcome::BadRequest
                } else if is_tarball {
                    UploadOutcome::BadRequest
                } else {
                    UploadOutcome::Created
                }
            },
        },
    }
}

/// Decide an upload request from already-resolved facts: the authorization
/// header as received, the database's verdict on its token, whether the
/// upload parameters parsed, and whether the declared installer is a
/// tarball.
pub fn upload_decision(
    header: Option<&str>,
    token_valid: bool,
    params_ok: bool,
    is_tarball: bool,
) -> (r: UploadOutcome)
    ensures
        r == spec_upload_outcome(
            match header {
                Option::Some(h) => Option::Some(h@),
                Option::None => Option::None,
            },
            token_valid,
            params_ok,
            is_tarball,
        ),
{
    let h = match header {
        Option::Some(h) => h,
        Option::None => {
            return UploadOutcome::Unauthorized;
        },
    };
    match parse_bearer_token(h) {
        Option::None => UploadOutcome::Unauthorized,
        Option::Some(_) => {
            if !token_valid {
                UploadOutcome::Unauthorized
            } else if !params_ok {
                UploadOutcome::BadRequest
            } else if is_tarball {
                UploadOutcome::BadRequest
            } else {
                UploadOutcome::Created
            }
        },
    }
}

/// How a download request is answered.
#[derive(Clone, Debug)]
pub enum DownloadDecision {
    PackageNotFound,
    NoInstaller,
    Redirect(String),
}

/// Decide a download request: an unresolved package or one without an
/// installer entry is not found; otherwise the caller is redirected to the
/// first installer's url.
pub fn download_response(pkg: Option<&PackageDescriptor>) -> (r: DownloadDecision)
    ensures
        match pkg {
            Option::None => r is PackageNotFound,
            Option::Some(d) => {
                if d.installers@.len() == 0 {
                    r is NoInstaller
                } else {
                    r matches DownloadDecision::Redirect(u) && u@ == d.installers@[0].url@
                }
            },
        },
{
    match pkg {
        Option::None => DownloadDecision::PackageNotFound,
        Option::Some(d) => {
            if d.installers.len() == 0 {
                DownloadDecision::NoInstaller
            } else {
                DownloadDecision::Redirect(d.installers[0].url.clone())
            }
        },
    }
}

/// The leading download counters: at most `limit` of them, kept in the
/// order the statistics query handed them in.
pub fn top_downloads(counts: &Vec<PackageCount>, limit: usize) -> (r: Vec<(String, i64)>)
    ensures
        r@.len() == (if limit <= counts@.len() {
            limit as int
        } else {
            counts@.len() as int
        }),
        forall|i: int| 0 <= i < r@.len() ==> r@[i].0@ == counts@[i].package_id@ && r@[i].1
            == counts@[i].count,
{
    let n = if limit <= counts.len() {
        limit
    } else {
        counts.len()
    };
    let mut out: Vec<(String, i64)> = Vec::new();
    let mut i: usize = 0;
    while i < n
        invariant
            n <= counts@.len(),
            0 <= i <= n,
            out@.len() == i,
            forall|j: int| 0 <= j < i ==> out@[j].0@ == counts@[j].package_id@ && out@[j].1
                == counts@[j].count,
        decreases n - i,
    {
        out.push((counts[i].package_id.clone(), counts[i].count));
        i += 1;
    }
    out
}

/// Seconds in a whole number of days, as statistics windows are given.
pub fn days_to_seconds(days: u32) -> (r: u64)
    ensures
        r == days * 86400,
{
    (days as u64) * 86400
}

} // verus!
