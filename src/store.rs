//! Layout of the archive store and the outcomes of reading from it.
//!
//! The store lives under a root directory that the caller resolves once and
//! passes in: `<root>/last_run/<name>` holds the archive of the last run of
//! the variant called `<name>`, `<root>/baseline/<name>` the promoted one,
//! and `<root>/cloud_resources` what provisioning keeps. Paths use `/`.
use vstd::prelude::*;
use vstd::string::StringExecFns;


verus! {

/// Directory of the archives of the last run.
pub const LAST_RUN_DIR: &'static str = "last_run";

/// Directory of the baseline archives.
pub const BASELINE_DIR: &'static str = "baseline";

/// Directory of the cloud resources.
pub const CLOUD_RESOURCES_DIR: &'static str = "cloud_resources";

/// Name of the build-output directory the store is kept in when there is one.
pub const BUILD_OUTPUT_DIR: &'static str = "target";

/// Name of the store's root directory.
pub const DATA_DIR: &'static str = "windsock_data";

/// Whether the proper ancestor ending at `components[i]` of the path made of
/// `components` is a build-output directory.
pub open spec fn is_build_output(components: Seq<String>, i: int) -> bool {
    0 <= i < components.len() - 1 && components[i]@ == BUILD_OUTPUT_DIR@
}

/// Where the store's root goes, given the components of the running
/// program's path: under the deepest proper ancestor named `target`, whose
/// last component is returned; `None` when there is no such ancestor, and the
/// root is then relative to the working directory.
pub fn storage_root_index(components: &Vec<String>) -> (r: Option<usize>)
    ensures
        match r {
            Some(i) => is_build_output(components@, i as int) && forall|j: int|
                i < j < components@.len() - 1 ==> !#[trigger] is_build_output(components@, j),
            None => forall|j: int| !#[trigger] is_build_output(components@, j),
        },
{
    let target = BUILD_OUTPUT_DIR.to_owned();
    let n = components.len();
    if n < 2 {
        return None;
    }
    let mut i: usize = n - 1;
    while i > 0
        invariant
            0 <= i <= n - 1,
            n == components@.len(),
            target@ == BUILD_OUTPUT_DIR@,
            forall|j: int| i <= j < n - 1 ==> !#[trigger] is_build_output(components@, j),
        decreases i,
    {
        i = i - 1;
        if components[i].eq(&target) {
            return Some(i);
        }
    }
    None
}

/// `name` under the directory `dir`.
pub open spec fn joined(dir: Seq<char>, name: Seq<char>) -> Seq<char> {
    dir + seq!['/'] + name
}

/// The path of `name` under the directory `dir`.
pub fn join(dir: &str, name: &str) -> (r: String)
    ensures
        r@ == joined(dir@, name@),
{
    proof {
        reveal_strlit("/");
    }
    let r = dir.to_owned().concat("/").concat(name);
    assert(r@ =~= joined(dir@, name@));
    r
}

/// Where the cloud resources of the store under `root` are kept.
pub fn cloud_resources_path(root: &str) -> (r: String)
    ensures
        r@ == joined(root@, CLOUD_RESOURCES_DIR@),
{
    join(root, CLOUD_RESOURCES_DIR)
}

/// The directory of the last run's archives.
pub fn last_run_path(root: &str) -> (r: String)
    ensures
        r@ == joined(root@, LAST_RUN_DIR@),
{
    join(root, LAST_RUN_DIR)
}

/// The directory of the baseline archives.
pub fn baseline_path(root: &str) -> (r: String)
    ensures
        r@ == joined(root@, BASELINE_DIR@),
{
    join(root, BASELINE_DIR)
}

/// Where the last run's archive of the variant called `name` is kept.
pub fn archive_path(root: &str, name: &str) -> (r: String)
    ensures
        r@ == joined(joined(root@, LAST_RUN_DIR@), name@),
{
    let dir = last_run_path(root);
    join(dir.as_str(), name)
}

/// Where the baseline archive of the variant called `name` is kept.
pub fn baseline_archive_path(root: &str, name: &str) -> (r: String)
    ensures
        r@ == joined(joined(root@, BASELINE_DIR@), name@),
{
    let dir = baseline_path(root);
    join(dir.as_str(), name)
}

/// Why an archive could not be read.
#[derive(Clone, Debug, PartialEq, Eq)]
pub enum StoreError {
    /// No archive is stored under that name.
    NotFound,
    /// The stored bytes do not decode: the format changed since they were
    /// written.
    FormatChanged,
    /// Reading failed otherwise; the message says how.
    Io(String),
}

/// The outcome of reading a baseline archive (of any form): a missing baseline is no
/// error but `None`; every other outcome is kept.
pub fn baseline_outcome<A>(loaded: Result<A, StoreError>) -> (r: Result<Option<A>, StoreError>)
    ensures
        match loaded {
            Ok(a) => r == Ok::<Option<A>, StoreError>(Some(a)),
            Err(StoreError::NotFound) => r == Ok::<Option<A>, StoreError>(None),
            Err(e) => r == Err::<Option<A>, StoreError>(e),
        },
{
    match loaded {
        Ok(a) => Ok(Some(a)),
        Err(StoreError::NotFound) => Ok(None),
        Err(e) => Err(e),
    }
}

} // verus!
