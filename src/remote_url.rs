//! Reduces a repository address to the form that can be cloned.
use vstd::prelude::*;
use crate::error::DiffError;
use crate::text::{ends_with, has_suffix};

verus! {

#[verifier::external_type_specification]
#[verifier::external_body]
pub struct ExUrl(url::Url);

/// Whether the url crate parses `s` as a URL.
pub uninterp spec fn url_parses(s: Seq<char>) -> bool;

/// The host of the URL that `s` parses to, as the url crate gives it.
pub uninterp spec fn url_host(s: Seq<char>) -> Option<Seq<char>>;

/// The path segments of the URL that `s` parses to, as the url crate gives them.
pub uninterp spec fn url_segments(s: Seq<char>) -> Option<Seq<Seq<char>>>;

/// A parsed URL together with the text it was parsed from.
struct ParsedUrl {
    url: url::Url,
    source: String,
}

/// Relies on url::Url::parse: whether a text parses depends on the text alone.
#[verifier::external_body]
fn parse_url(s: &str) -> (r: Option<ParsedUrl>)
    ensures
        r.is_some() == url_parses(s@),
        r matches Some(u) ==> u.source@ == s@,
{
    url::Url::parse(s).ok().map(|url| ParsedUrl { url, source: s.to_string() })
}

/// Relies on url::Url::host_str: the host of the parsed URL, if it has one.
#[verifier::external_body]
fn host_of(u: &ParsedUrl) -> (r: Option<String>)
    ensures
        match r {
            Some(h) => url_host(u.source@) == Some(h@),
            None => url_host(u.source@) is None,
        },
{
    u.url.host_str().map(|h| h.to_string())
}

/// Relies on url::Url::path_segments: the segments of the parsed URL's path,
/// where the URL has a path that can be split.
#[verifier::external_body]
fn segments_of(u: &ParsedUrl) -> (r: Option<Vec<String>>)
    ensures
        match r {
            Some(v) => url_segments(u.source@) == Some(v@.map_values(|x: String| x@)),
            None => url_segments(u.source@) is None,
        },
{
    u.url.path_segments().map(|segs| segs.map(|x| x.to_string()).collect())
}

/// `s` without every trailing `.git`.
pub open spec fn trim_git(s: Seq<char>) -> Seq<char>
    decreases s.len(),
{
    if s.len() >= 4 && has_suffix(s, ".git"@) {
        trim_git(s.subrange(0, s.len() - 4))
    } else {
        s
    }
}

/// The address `https://host/owner/repo` that the repository address `s`
/// reduces to, or why it does not.
pub open spec fn trimmed_url(s: Seq<char>) -> Result<Seq<char>, DiffError> {
    if !url_parses(s) {
        Err(DiffError::InvalidUrl)
    } else if url_host(s) is None {
        Err(DiffError::MissingHost)
    } else if url_segments(s) is None {
        Err(DiffError::MissingPath)
    } else if url_segments(s)->Some_0.len() < 1 {
        Err(DiffError::MissingOwner)
    } else if url_segments(s)->Some_0.len() < 2 {
        Err(DiffError::MissingRepository)
    } else {
        let segs = url_segments(s)->Some_0;
        Ok(
            "https://"@ + url_host(s)->Some_0 + "/"@ + segs[0] + "/"@ + trim_git(segs[1]),
        )
    }
}

fn trim_git_suffix(s: &str) -> (r: String)
    ensures
        r@ == trim_git(s@),
{
    let mut cur: &str = s;
    let mut n = s.unicode_len();
    proof { reveal_strlit(".git"); }
    while n >= 4 && ends_with(cur, ".git")
        invariant
            n == cur@.len(),
            trim_git(cur@) == trim_git(s@),
        decreases n,
    {
        let next = cur.substring_char(0, n - 4);
        cur = next;
        n = n - 4;
    }
    cur.to_owned()
}

/// Reduces a repository address, such as one that points into a subdirectory
/// of the repository, to `https://host/owner/repo`, with any trailing `.git`
/// taken off the repository's name.
pub fn trim_remote_url(url: &str) -> (r: Result<String, DiffError>)
    ensures
        match r {
            Ok(s) => trimmed_url(url@) == Ok::<Seq<char>, DiffError>(s@),
            Err(e) => trimmed_url(url@) == Err::<Seq<char>, DiffError>(e),
        },
{
    let parsed = match parse_url(url) {
        Some(p) => p,
        None => {
            return Err(DiffError::InvalidUrl);
        },
    };
    let host = match host_of(&parsed) {
        Some(h) => h,
        None => {
            return Err(DiffError::MissingHost);
        },
    };
    let segments = match segments_of(&parsed) {
        Some(v) => v,
        None => {
            return Err(DiffError::MissingPath);
        },
    };
    if segments.len() < 1 {
        return Err(DiffError::MissingOwner);
    }
    if segments.len() < 2 {
        return Err(DiffError::MissingRepository);
    }
    let repo = trim_git_suffix(segments[1].as_str());
    let mut out = String::new();
    out.append("https://");
    out.append(host.as_str());
    out.append("/");
    out.append(segments[0].as_str());
    out.append("/");
    out.append(repo.as_str());
    Ok(out)
}

} // verus!
