//! Names and layout rules of the scratch workspace that holds downloaded
//! archives and cloned repositories.
use vstd::prelude::*;
use crate::error::DiffError;

verus! {

/// The registry address from which version `version` of package `name` is
/// downloaded as a compressed archive.
pub fn download_url(name: &str, version: &str) -> (r: String)
    ensures
        r@ == "https://crates.io/api/v1/crates/"@ + name@ + "/"@ + version@ + "/download"@,
{
    let mut s = String::new();
    s.append("https://crates.io/api/v1/crates/");
    s.append(name);
    s.append("/");
    s.append(version);
    s.append("/download");
    s
}

/// The workspace directory into which that archive is unpacked.
pub fn tarball_dir_name(name: &str, version: &str) -> (r: String)
    ensures
        r@ == name@ + "-"@ + version@ + "-cratesio"@,
{
    let mut s = String::new();
    s.append(name);
    s.append("-");
    s.append(version);
    s.append("-cratesio");
    s
}

/// The workspace directory into which the upstream repository of package
/// `name` is cloned.
pub fn clone_dir_name(name: &str) -> (r: String)
    ensures
        r@ == name@ + "-source"@,
{
    let mut s = String::new();
    s.append(name);
    s.append("-source");
    s
}

/// The one entry that unpacking an archive left in its directory; an
/// `ExtractionLayout` error where there are none or several.
pub fn single_extracted_entry(entries: Vec<String>) -> (r: Result<String, DiffError>)
    ensures
        entries@.len() == 1 ==> r == Ok::<String, DiffError>(entries@[0]),
        entries@.len() != 1 ==> r == Err::<String, DiffError>(DiffError::ExtractionLayout),
{
    if entries.len() != 1 {
        return Err(DiffError::ExtractionLayout);
    }
    let mut entries = entries;
    let e = entries.pop();
    match e {
        Some(e) => Ok(e),
        None => Err(DiffError::ExtractionLayout),
    }
}

} // verus!
