use ipak::lock::LockManager;
use ipak::paths::{fallback_home, get_path, global, join_path, local, package_install_dir};
use ipak::project::ExecMode;

#[test]
fn join_rules() {
    assert_eq!(join_path("/a", "b"), "/a/b");
    assert_eq!(join_path("/a/", "b"), "/a/b");
    assert_eq!(join_path("", "b"), "b");
    assert_eq!(join_path("/a", "/c"), "/c");
}

#[test]
fn global_paths() {
    assert_eq!(global::packageslist_filepath(), "/etc/ipak/packages/list.yaml");
    assert_eq!(global::packages_dirpath(), "/etc/ipak/packages");
    assert_eq!(global::lock_filepath(), "/etc/ipak/lock");
    assert_eq!(global::tasks_filepath(), "/etc/ipak/tasks");
}

#[test]
fn local_paths() {
    assert_eq!(local::packageslist_filepath("/home/ann"), "/home/ann/.ipak/packages/list.yaml");
    assert_eq!(local::packages_dirpath("/home/ann/"), "/home/ann/.ipak/packages");
    assert_eq!(local::cache_path("/home/ann"), "/home/ann/.cache/ipak/");
    assert_eq!(local::lock_filepath("/root"), "/root/.ipak/lock");
    assert_eq!(local::tasks_filepath("/root"), "/root/.ipak/tasks");
    assert_eq!(fallback_home("ann"), "/home/ann");
    assert_eq!(get_path("/w/p"), "/w/p/ipak/project.yaml");
    assert_eq!(package_install_dir(ExecMode::Global, "/root", "x"), "/etc/ipak/packages/x");
    assert_eq!(package_install_dir(ExecMode::Local, "/root", "x"), "/root/.ipak/packages/x");
}

#[test]
fn lock_files() {
    let g = LockManager::new(true, "/home/ann");
    assert_eq!(g.lock_path(), "/etc/ipak/lock");
    assert_eq!(g.tasks_path(), "/etc/ipak/tasks");
    let l = LockManager::new(false, "/home/ann");
    assert_eq!(l.lock_path(), "/home/ann/.ipak/lock");
    assert_eq!(l.tasks_path(), "/home/ann/.ipak/tasks");
    assert!(LockManager::is_timed_out(60001));
    assert!(!LockManager::is_timed_out(60000));
}
