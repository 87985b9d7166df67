//! What the registry says of a package: whether it hosts it, and how widely
//! it is used.
use vstd::prelude::*;

verus! {

/// The registry's figures for one package.
#[derive(Debug, Clone, Default)]
pub struct CratesioReport {
    pub name: String,
    pub is_hosted: bool,
    pub downloads: u64,
    /// Packages that depend on it directly.
    pub dependents: u64,
}

/// What stops reading a figure from a registry response.
#[derive(Debug, Clone, Copy, PartialEq, Eq, Structural)]
pub enum RegistryError {
    /// The response is not JSON, or the figure is missing or not an unsigned integer.
    MalformedResponse,
}

/// The unsigned integer at `body[outer][inner]`, where `body` parses as JSON
/// and holds one there.
pub uninterp spec fn json_u64_at(body: Seq<char>, outer: Seq<char>, inner: Seq<char>) -> Option<u64>;

/// Relies on serde_json::from_str into serde_json::Value, indexing a Value by
/// key, and Value::as_u64.
#[verifier::external_body]
fn nested_u64(body: &str, outer: &str, inner: &str) -> (r: Option<u64>)
    ensures
        r == json_u64_at(body@, outer@, inner@),
{
    serde_json::from_str::<serde_json::Value>(body).ok().and_then(|v| v[outer][inner].as_u64())
}

/// The number of packages that depend directly on a package, read from the
/// registry's reverse-dependencies response (`meta.total`).
pub fn total_dependents_from_response(body: &str) -> (r: Result<u64, RegistryError>)
    ensures
        match json_u64_at(body@, "meta"@, "total"@) {
            Some(n) => r == Ok::<u64, RegistryError>(n),
            None => r == Err::<u64, RegistryError>(RegistryError::MalformedResponse),
        },
{
    match nested_u64(body, "meta", "total") {
        Some(n) => Ok(n),
        None => Err(RegistryError::MalformedResponse),
    }
}

/// The downloads of one version of a package, read from the registry's
/// version response (`version.downloads`).
pub fn version_downloads_from_response(body: &str) -> (r: Result<u64, RegistryError>)
    ensures
        match json_u64_at(body@, "version"@, "downloads"@) {
            Some(n) => r == Ok::<u64, RegistryError>(n),
            None => r == Err::<u64, RegistryError>(RegistryError::MalformedResponse),
        },
{
    match nested_u64(body, "version", "downloads") {
        Some(n) => Ok(n),
        None => Err(RegistryError::MalformedResponse),
    }
}

impl CratesioReport {
    /// The report on a package that the registry does not host: no downloads
    /// and no dependents.
    pub fn unhosted(name: &str) -> (r: CratesioReport)
        ensures
            r.name@ == name@,
            !r.is_hosted,
            r.downloads == 0,
            r.dependents == 0,
    {
        CratesioReport { name: name.to_owned(), is_hosted: false, downloads: 0, dependents: 0 }
    }

    /// The report on a hosted package with the registry's figures.
    pub fn hosted(name: &str, downloads: u64, dependents: u64) -> (r: CratesioReport)
        ensures
            r.name@ == name@,
            r.is_hosted,
            r.downloads == downloads,
            r.dependents == dependents,
    {
        CratesioReport { name: name.to_owned(), is_hosted: true, downloads, dependents }
    }
}

} // verus!
