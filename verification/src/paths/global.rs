//! The files of ipak for the whole system, under `/etc/ipak/`.
use crate::paths::{join_path, path_join};
use crate::text::string_of;
use vstd::prelude::*;

verus! {

/// The root directory of the system.
pub open spec fn root_dir() -> Seq<char> {
    "/"@
}

/// The directory of ipak for the whole system: `/etc/ipak/`.
pub open spec fn ipak_dir() -> Seq<char> {
    path_join(root_dir(), "etc/ipak/"@)
}

/// The directory of installed packages: `/etc/ipak/packages`.
pub open spec fn packages_dir() -> Seq<char> {
    path_join(ipak_dir(), "packages"@)
}

fn root_path() -> (r: String)
    ensures
        r@ == root_dir(),
{
    string_of("/")
}

fn ipak_path() -> (r: String)
    ensures
        r@ == ipak_dir(),
{
    let root = root_path();
    join_path(root.as_str(), "etc/ipak/")
}

/// The list of installed packages: `/etc/ipak/packages/list.yaml`.
pub fn packageslist_filepath() -> (r: String)
    ensures
        r@ == path_join(packages_dir(), "list.yaml"@),
{
    let dir = packages_dirpath();
    join_path(dir.as_str(), "list.yaml")
}

/// The directory of installed packages: `/etc/ipak/packages`.
pub fn packages_dirpath() -> (r: String)
    ensures
        r@ == packages_dir(),
{
    let dir = ipak_path();
    join_path(dir.as_str(), "packages")
}

/// The lock file: `/etc/ipak/lock`.
pub fn lock_filepath() -> (r: String)
    ensures
        r@ == path_join(ipak_dir(), "lock"@),
{
    let dir = ipak_path();
    join_path(dir.as_str(), "lock")
}

/// The file of pending tasks: `/etc/ipak/tasks`.
pub fn tasks_filepath() -> (r: String)
    ensures
        r@ == path_join(ipak_dir(), "tasks"@),
{
    let dir = ipak_path();
    join_path(dir.as_str(), "tasks")
}

} // verus!
