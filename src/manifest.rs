//! Finds the manifest that governs a package, and scopes a tree to the
//! package's directory.
use vstd::prelude::*;
use crate::error::DiffError;
use crate::text::{ends_with, has_suffix, same_text, text_of};

verus! {

/// What a manifest declares itself to be.
#[derive(Debug, Clone, Copy, PartialEq, Eq, Structural)]
pub enum ManifestRole {
    /// It declares a package.
    Package,
    /// It aggregates a workspace of packages.
    Workspace,
}

/// A manifest file of a checkout, in the order the tree walk met it, with
/// what its parser read: its role, and the package's name and version.
pub struct ManifestRecord {
    pub path: String,
    pub role: ManifestRole,
    pub name: Option<String>,
    pub version: Option<String>,
}

/// The file name that manifests end with.
pub open spec fn manifest_file_name() -> Seq<char> {
    "Cargo.toml"@
}

/// Whether a file met in the tree walk is taken for a manifest: its name
/// ends with the manifest file name.
pub fn is_manifest_file_name(file_name: &str) -> (r: bool)
    ensures
        r == has_suffix(file_name@, manifest_file_name()),
{
    ends_with(file_name, "Cargo.toml")
}

/// The record declares the package `name`.
pub open spec fn declares_package(m: ManifestRecord, name: Seq<char>) -> bool {
    &&& m.role == ManifestRole::Package
    &&& m.name matches Some(n) && n@ == name
}

/// The index of the first record that declares the package `name`.
pub open spec fn package_manifest(records: Seq<ManifestRecord>, name: Seq<char>) -> Option<int> {
    if exists|i: int|
        0 <= i < records.len() && declares_package(records[i], name) && forall|j: int|
            0 <= j < i ==> !declares_package(#[trigger] records[j], name) {
        Some(
            choose|i: int|
                0 <= i < records.len() && declares_package(records[i], name) && forall|j: int|
                    0 <= j < i ==> !declares_package(#[trigger] records[j], name),
        )
    } else {
        None
    }
}

fn record_declares(m: &ManifestRecord, name: &str) -> (r: bool)
    ensures
        r == declares_package(*m, name@),
{
    match (&m.role, &m.name) {
        (ManifestRole::Package, Some(n)) => same_text(n.as_str(), name),
        _ => false,
    }
}

/// The index of the first manifest record that declares the package `name`.
fn find_package(records: &Vec<ManifestRecord>, name: &str) -> (r: Option<usize>)
    ensures
        match package_manifest(records@, name@) {
            Some(i) => r matches Some(k) && k as int == i,
            None => r is None,
        },
{
    let n = records.len();
    let mut i: usize = 0;
    while i < n
        invariant
            n == records@.len(),
            0 <= i <= n,
            forall|j: int| 0 <= j < i ==> !declares_package(#[trigger] records@[j], name@),
        decreases n - i,
    {
        if record_declares(&records[i], name) {
            proof {
                let rs = records@;
                let w = i as int;
                assert(0 <= w < rs.len() && declares_package(rs[w], name@) && forall|j: int|
                    0 <= j < w ==> !declares_package(#[trigger] rs[j], name@));
                let c = choose|c: int|
                    0 <= c < rs.len() && declares_package(rs[c], name@) && forall|j: int|
                        0 <= j < c ==> !declares_package(#[trigger] rs[j], name@);
                if c > w {
                    assert(!declares_package(rs[w], name@));
                }
            }
            return Some(i);
        }
        i = i + 1;
    }
    None
}

/// The path of the first manifest that declares the package `name`, or
/// `ManifestNotFound` where none does.
pub fn locate_package_toml(records: &Vec<ManifestRecord>, name: &str) -> (r: Result<
    String,
    DiffError,
>)
    ensures
        match package_manifest(records@, name@) {
            Some(i) => r matches Ok(p) && p@ == records@[i].path@,
            None => r == Err::<String, DiffError>(DiffError::ManifestNotFound),
        },
{
    match find_package(records, name) {
        Some(i) => Ok(records[i].path.clone()),
        None => Err(DiffError::ManifestNotFound),
    }
}

/// The version that the first manifest declaring the package `name` gives,
/// `None` where no manifest declares it or it gives none.
pub fn package_version(records: &Vec<ManifestRecord>, name: &str) -> (r: Option<String>)
    ensures
        match package_manifest(records@, name@) {
            Some(i) => match records@[i].version {
                Some(v) => r matches Some(x) && x@ == v@,
                None => r is None,
            },
            None => r is None,
        },
{
    match find_package(records, name) {
        Some(i) => match &records[i].version {
            Some(v) => Some(v.clone()),
            None => None,
        },
        None => None,
    }
}

/// The index of the last `/` in `p`, if any.
pub open spec fn last_slash(p: Seq<char>) -> Option<int> {
    if exists|i: int| 0 <= i < p.len() && p[i] == '/' {
        Some(choose|i: int| 0 <= i < p.len() && p[i] == '/' && forall|j: int| i < j < p.len() ==> p[j] != '/')
    } else {
        None
    }
}

/// The directory that holds the file at the relative path `p`: what stands
/// before its last `/`, or the empty path (the repository root) where there
/// is none. An empty path has no directory.
pub open spec fn parent_dir(p: Seq<char>) -> Option<Seq<char>> {
    if p.len() == 0 {
        None
    } else {
        match last_slash(p) {
            Some(i) => Some(p.subrange(0, i)),
            None => Some(Seq::empty()),
        }
    }
}

/// The directory of the package whose manifest stands at `manifest_path`,
/// relative to the repository root; `ManifestAtRoot` for an empty path.
pub fn manifest_directory(manifest_path: &str) -> (r: Result<String, DiffError>)
    ensures
        match parent_dir(manifest_path@) {
            Some(d) => r matches Ok(s) && s@ == d,
            None => r == Err::<String, DiffError>(DiffError::ManifestAtRoot),
        },
{
    let n = manifest_path.unicode_len();
    if n == 0 {
        return Err(DiffError::ManifestAtRoot);
    }
    let mut i: usize = n;
    while i > 0
        invariant
            n == manifest_path@.len(),
            0 <= i <= n,
            forall|j: int| i <= j < n ==> manifest_path@[j] != '/',
        decreases i,
    {
        if manifest_path.get_char(i - 1) == '/' {
            let d = manifest_path.substring_char(0, i - 1);
            proof {
                let p = manifest_path@;
                let w = i - 1;
                assert(0 <= w < p.len() && p[w] == '/' && forall|j: int| w < j < p.len() ==> p[j] != '/');
                let c = choose|c: int| 0 <= c < p.len() && p[c] == '/' && forall|j: int| c < j < p.len() ==> p[j] != '/';
                if c < w {
                    assert(p[w] != '/');
                } else if c > w {
                    assert(p[c] != '/');
                }
            }
            return Ok(d.to_owned());
        }
        i = i - 1;
    }
    Ok(String::new())
}

/// Every component of the path `p` is empty or `.`: it names no file or
/// directory below the repository root.
pub open spec fn is_root(p: Seq<char>) -> bool {
    forall|i: int|
        0 <= i < p.len() ==> (#[trigger] p[i] == '/' || (p[i] == '.' && (i == 0 || p[i - 1] == '/')
            && (i + 1 == p.len() || p[i + 1] == '/')))
}

/// Whether the path `p` denotes the repository root.
pub fn is_root_path(p: &str) -> (r: bool)
    ensures
        r == is_root(p@),
{
    let n = p.unicode_len();
    let mut i: usize = 0;
    while i < n
        invariant
            n == p@.len(),
            0 <= i <= n,
            forall|j: int|
                0 <= j < i ==> (#[trigger] p@[j] == '/' || (p@[j] == '.' && (j == 0 || p@[j - 1]
                    == '/') && (j + 1 == p@.len() || p@[j + 1] == '/'))),
        decreases n - i,
    {
        let c = p.get_char(i);
        if c != '/' {
            if c != '.' {
                return false;
            }
            if i > 0 && p.get_char(i - 1) != '/' {
                return false;
            }
            if i + 1 < n && p.get_char(i + 1) != '/' {
                return false;
            }
        }
        i = i + 1;
    }
    true
}

/// The tree that scoping `tree` to the path `p` gives, where looking `p` up
/// in it gave `lookup`: the tree itself for the root, else the tree found,
/// else `PathNotFound`.
pub open spec fn scoped(tree: Seq<char>, p: Seq<char>, lookup: Option<Seq<char>>) -> Result<
    Seq<char>,
    DiffError,
> {
    if is_root(p) {
        Ok(tree)
    } else {
        match lookup {
            Some(t) => Ok(t),
            None => Err(DiffError::PathNotFound),
        }
    }
}

/// Scopes the tree `tree` to the relative path `p`. `lookup` is the tree
/// found at `p` inside `tree`, `None` where the path does not exist there; it
/// is not read where `p` denotes the root.
pub fn get_subdirectory_tree(tree: &String, p: &str, lookup: Option<String>) -> (r: Result<
    String,
    DiffError,
>)
    ensures
        match r {
            Ok(t) => scoped(tree@, p@, text_of(lookup)) == Ok::<
                Seq<char>,
                DiffError,
            >(t@),
            Err(e) => scoped(tree@, p@, text_of(lookup)) == Err::<
                Seq<char>,
                DiffError,
            >(e),
        },
{
    if is_root_path(p) {
        return Ok(tree.clone());
    }
    match lookup {
        Some(t) => Ok(t),
        None => Err(DiffError::PathNotFound),
    }
}

/// Scoping a tree to the repository root gives the tree itself, whatever a
/// lookup gave.
pub proof fn lemma_scope_to_root_is_identity(tree: Seq<char>, lookup: Option<Seq<char>>)
    ensures
        scoped(tree, Seq::empty(), lookup) == Ok::<Seq<char>, DiffError>(tree),
{
}

} // verus!
