//! The files of ipak for one user, under `.ipak` in the user's home directory.
use crate::paths::{join_path, path_join};
use vstd::prelude::*;

verus! {

/// The directory of ipak in the home directory `home`.
pub open spec fn ipak_dir(home: Seq<char>) -> Seq<char> {
    path_join(home, ".ipak"@)
}

/// The directory of installed packages in the home directory `home`.
pub open spec fn packages_dir(home: Seq<char>) -> Seq<char> {
    path_join(ipak_dir(home), "packages"@)
}

fn ipak_path(home: &str) -> (r: String)
    ensures
        r@ == ipak_dir(home@),
{
    join_path(home, ".ipak")
}

/// The list of installed packages: `.ipak/packages/list.yaml` in `home`.
pub fn packageslist_filepath(home: &str) -> (r: String)
    ensures
        r@ == path_join(packages_dir(home@), "list.yaml"@),
{
    let dir = packages_dirpath(home);
    join_path(dir.as_str(), "list.yaml")
}

/// The directory of installed packages: `.ipak/packages` in `home`.
pub fn packages_dirpath(home: &str) -> (r: String)
    ensures
        r@ == packages_dir(home@),
{
    let dir = ipak_path(home);
    join_path(dir.as_str(), "packages")
}

/// The cache directory: `.cache/ipak/` in `home`.
pub fn cache_path(home: &str) -> (r: String)
    ensures
        r@ == path_join(home@, ".cache/ipak/"@),
{
    join_path(home, ".cache/ipak/")
}

/// The lock file: `.ipak/lock` in `home`.
pub fn lock_filepath(home: &str) -> (r: String)
    ensures
        r@ == path_join(ipak_dir(home@), "lock"@),
{
    let dir = ipak_path(home);
    join_path(dir.as_str(), "lock")
}

/// The file of pending tasks: `.ipak/tasks` in `home`.
pub fn tasks_filepath(home: &str) -> (r: String)
    ensures
        r@ == path_join(ipak_dir(home@), "tasks"@),
{
    let dir = ipak_path(home);
    join_path(dir.as_str(), "tasks")
}

} // verus!
