use ipak::depend::{DependencyGraph, DependencyGraphOperations, InstallError, RemoveError};
use ipak::list::{InstalledPackageData, PackageListData};
use ipak::pkg::{
    AboutData, AuthorAboutData, Mode, PackageAboutData, PackageData, PackageRange, PackageVersion, RelationData,
};
use ipak::version::{Version, VersionRange};

fn setup_package_list(packages: Vec<PackageData>) -> PackageListData {
    let now = chrono::Local::now().to_rfc3339();
    PackageListData {
        installed_packages: packages
            .into_iter()
            .map(|info| InstalledPackageData { info, last_modified: now.clone() })
            .collect(),
        last_modified: now,
    }
}

fn empty_list() -> PackageListData {
    PackageListData::empty_at(chrono::Local::now().to_rfc3339())
}

fn create_package(
    name: &str,
    version: &str,
    depends: Option<Vec<Vec<PackageRange>>>,
    conflicts: Option<Vec<PackageRange>>,
    virtuals: Option<Vec<PackageVersion>>,
    depend_cmds: Option<Vec<String>>,
) -> PackageData {
    PackageData {
        about: AboutData {
            author: AuthorAboutData { name: "tester".to_string(), email: "tester@localhost.local".to_string() },
            package: PackageAboutData {
                name: name.to_string(),
                version: Version::from_str(version).unwrap(),
                description: String::new(),
            },
        },
        architecture: Vec::new(),
        mode: Mode::Any,
        relation: RelationData {
            depend: depends.unwrap_or_default(),
            conflicts: conflicts.unwrap_or_default(),
            virtuals: virtuals.unwrap_or_default(),
            depend_cmds: depend_cmds.unwrap_or_default(),
            suggests: Vec::new(),
            recommends: Vec::new(),
            provide_cmds: Vec::new(),
        },
    }
}

fn range(name: &str, text: &str) -> PackageRange {
    PackageRange { name: name.to_string(), range: VersionRange::from_str(text).unwrap() }
}

fn no_cmds() -> Vec<String> {
    Vec::new()
}

#[test]
fn test_from_installed_packages() {
    let pkg_a = create_package(
        "pkgA",
        "1.0",
        None,
        None,
        Some(vec![PackageVersion { name: "virtA".to_string(), version: Version::from_str("1.0").unwrap() }]),
        None,
    );
    let pkg_b = create_package("pkgB", "2.0", None, None, None, None);
    let installed_packages = setup_package_list(vec![pkg_a, pkg_b]);
    let graph = DependencyGraph::from_installed_packages(&installed_packages);

    assert!(graph.get_real_packages().contains_key("pkgA"));
    assert!(graph.get_real_packages().get("pkgA").unwrap().contains(&Version::from_str("1.0").unwrap()));
    assert!(graph.get_real_packages().contains_key("pkgB"));
    assert!(graph.get_real_packages().get("pkgB").unwrap().contains(&Version::from_str("2.0").unwrap()));

    assert!(graph.get_available_packages().contains_key("pkgA"));
    assert!(graph.get_available_packages().contains_key("pkgB"));
    assert!(graph.get_available_packages().contains_key("virtA"));
    assert!(graph.get_available_packages().get("virtA").unwrap().contains(&Version::from_str("1.0").unwrap()));
}

#[test]
fn test_are_dependencies_satisfied() {
    let dep1 = create_package("dep1", "1.2", None, None, None, None);
    let installed_packages = setup_package_list(vec![dep1]);
    let graph = DependencyGraph::from_installed_packages(&installed_packages);

    let pkg = create_package("pkg", "1.0", Some(vec![vec![range("dep1", ">= 1.0")]]), None, None, None);
    assert!(graph.are_dependencies_satisfied(&pkg));

    let pkg_no_dep = create_package("pkg", "1.0", Some(vec![vec![range("dep2", ">= 1.0")]]), None, None, None);
    assert!(!graph.are_dependencies_satisfied(&pkg_no_dep));

    let provider = create_package(
        "provider",
        "2.0",
        None,
        None,
        Some(vec![PackageVersion { name: "virtual-pkg".to_string(), version: Version::from_str("1.5").unwrap() }]),
        None,
    );
    let installed_packages2 = setup_package_list(vec![provider]);
    let graph2 = DependencyGraph::from_installed_packages(&installed_packages2);
    let pkg_virtual =
        create_package("pkg", "1.0", Some(vec![vec![range("virtual-pkg", ">= 1.0")]]), None, None, None);
    assert!(graph2.are_dependencies_satisfied(&pkg_virtual));
}

#[test]
fn test_get_missing_dependencies() {
    let pkg = create_package(
        "pkg",
        "1.0",
        Some(vec![vec![range("dep1", ">=1.0")], vec![range("dep2", ">=2.0")]]),
        None,
        None,
        None,
    );
    let graph = DependencyGraph::from_installed_packages(&empty_list());
    let missing = graph.get_missing_dependencies(&pkg);
    assert_eq!(missing.len(), 2);
    assert_eq!(missing[0][0].name, "dep1");
    assert_eq!(missing[1][0].name, "dep2");
}

#[test]
fn test_has_conflicts() {
    let conflict_pkg = create_package("conflict1", "1.2", None, None, None, None);
    let installed_packages = setup_package_list(vec![conflict_pkg]);
    let graph = DependencyGraph::from_installed_packages(&installed_packages);

    let pkg = create_package("pkg", "1.0", None, Some(vec![range("conflict1", ">= 1.0")]), None, None);
    assert!(graph.has_conflicts(&pkg).is_some());

    let pkg_no_conflict = create_package("pkg", "1.0", None, Some(vec![range("conflict2", ">= 1.0")]), None, None);
    assert!(graph.has_conflicts(&pkg_no_conflict).is_none());
}

#[test]
fn test_is_packages_installable() {
    let graph = DependencyGraph::from_installed_packages(&empty_list());

    assert!(graph.is_packages_installable(vec![], &no_cmds()).is_ok());

    let pkg1 = create_package("pkg1", "1.0", None, None, None, None);
    assert!(graph.is_packages_installable(vec![pkg1.clone()], &no_cmds()).is_ok());

    let pkg2 = create_package("pkg2", "1.0", Some(vec![vec![range("pkg1", ">= 1.0")]]), None, None, None);
    assert!(graph.is_packages_installable(vec![pkg1.clone(), pkg2], &no_cmds()).is_ok());

    let pkg3 = create_package("pkg3", "1.0", None, Some(vec![range("pkg4", ">= 1.0")]), None, None);
    let pkg4 = create_package("pkg4", "1.0", None, Some(vec![range("pkg3", ">= 1.0")]), None, None);
    let result = graph.is_packages_installable(vec![pkg3.clone(), pkg4.clone()], &no_cmds());
    assert!(matches!(result, Err(InstallError::ConflictsWithOtherPackages { .. })));

    let pkg5 = create_package("pkg5", "1.0", None, None, None, Some(vec!["nonexistent_cmd".to_string()]));
    let result = graph.is_packages_installable(vec![pkg5], &no_cmds());
    assert!(matches!(result, Err(InstallError::MissingSystemCommands { .. })));

    let pkg6 = create_package("pkg6", "1.0", Some(vec![vec![range("missing_dep", ">= 1.0")]]), None, None, None);
    let result = graph.is_packages_installable(vec![pkg6], &no_cmds());
    assert!(matches!(result, Err(InstallError::MissingDependencies { .. })));

    let conflict_pkg = create_package("conflict1", "1.2", None, None, None, None);
    let installed_packages = setup_package_list(vec![conflict_pkg]);
    let graph = DependencyGraph::from_installed_packages(&installed_packages);
    let pkg7 = create_package("pkg7", "1.0", None, Some(vec![range("conflict1", ">= 1.0")]), None, None);
    let result = graph.is_packages_installable(vec![pkg7], &no_cmds());
    assert!(matches!(result, Err(InstallError::ConflictsWithInstalled { .. })));
}

#[test]
fn test_is_packages_removable_no_dependents() {
    let pkg_a = create_package("pkgA", "1.0", None, None, None, None);
    let pkg_b = create_package("pkgB", "1.0", None, None, None, None);
    let installed_packages = setup_package_list(vec![pkg_a, pkg_b]);
    let graph = DependencyGraph::from_installed_packages(&installed_packages);

    assert!(graph.is_packages_removable(&["pkgA"]).is_ok());
}

#[test]
fn test_is_packages_removable_with_dependent() {
    let pkg_a = create_package("pkgA", "1.0", None, None, None, None);
    let pkg_b = create_package("pkgB", "1.0", None, None, None, None);
    let pkg_c = create_package("pkgC", "1.0", Some(vec![vec![range("pkgA", "= 1.0")]]), None, None, None);
    let installed_packages = setup_package_list(vec![pkg_a, pkg_b, pkg_c]);
    let graph = DependencyGraph::from_installed_packages(&installed_packages);

    let result = graph.is_packages_removable(&["pkgA"]);

    if let Err(RemoveError::DependencyOfOtherPackages { ref dependent_packages, .. }) = result {
        assert!(dependent_packages.contains(&"pkgC".to_string()));
    } else {
        panic!("result was not `RemoveError::DependencyOfOtherPackages`")
    }
}

#[test]
fn test_is_packages_removable_multiple_packages_with_dependent() {
    let pkg_a = create_package("pkgA", "1.0", None, None, None, None);
    let pkg_b = create_package("pkgB", "1.0", None, None, None, None);
    let pkg_c = create_package("pkgC", "1.0", Some(vec![vec![range("pkgA", "= 1.0")]]), None, None, None);
    let pkg_d = create_package("pkgD", "1.0", Some(vec![vec![range("pkgB", "= 1.0")]]), None, None, None);
    let installed_packages = setup_package_list(vec![pkg_a, pkg_b, pkg_c, pkg_d]);
    let graph = DependencyGraph::from_installed_packages(&installed_packages);

    let result = graph.is_packages_removable(&["pkgA", "pkgB"]);

    if let Err(RemoveError::DependencyOfOtherPackages { ref dependent_packages, .. }) = result {
        assert!(
            dependent_packages.contains(&"pkgC".to_string()) || dependent_packages.contains(&"pkgD".to_string())
        );
    } else {
        panic!("result was not `RemoveError::DependencyOfOtherPackages`")
    }
}

#[test]
fn test_is_packages_removable_self_contained() {
    let pkg_a = create_package("pkgA", "1.0", Some(vec![vec![range("pkgB", "= 1.0")]]), None, None, None);
    let pkg_b = create_package("pkgB", "1.0", None, None, None, None);
    let installed_packages = setup_package_list(vec![pkg_a, pkg_b]);
    let graph = DependencyGraph::from_installed_packages(&installed_packages);

    assert!(graph.is_packages_removable(&["pkgA", "pkgB"]).is_ok());
}

#[test]
fn test_is_packages_removable_virtual_dependency() {
    let pkg_a = create_package(
        "pkgA",
        "1.0",
        None,
        None,
        Some(vec![PackageVersion { name: "VirtDep".to_string(), version: Version::from_str("1.0").unwrap() }]),
        None,
    );
    let pkg_b = create_package("pkgB", "1.0", Some(vec![vec![range("VirtDep", "= 1.0")]]), None, None, None);
    let installed_packages = setup_package_list(vec![pkg_a, pkg_b]);
    let graph = DependencyGraph::from_installed_packages(&installed_packages);

    let result = graph.is_packages_removable(&["pkgA"]);
    if let Err(RemoveError::DependencyOfOtherPackages { ref dependent_packages, .. }) = result {
        assert!(dependent_packages.contains(&"pkgB".to_string()));
    } else {
        panic!("result was not `RemoveError::DependencyOfOtherPackages`")
    }
}

#[test]
fn removal_refusal_names_all_removed_packages() {
    let pkg_a = create_package("pkgA", "1.0", None, None, None, None);
    let pkg_b = create_package("pkgB", "1.0", None, None, None, None);
    let pkg_c = create_package("pkgC", "1.0", Some(vec![vec![range("pkgB", "= 1.0")]]), None, None, None);
    let graph = DependencyGraph::from_installed_packages(&setup_package_list(vec![pkg_a, pkg_b, pkg_c]));
    match graph.is_packages_removable(&["pkgA", "pkgB"]) {
        Err(RemoveError::DependencyOfOtherPackages { package, dependent_packages }) => {
            assert_eq!(package, "pkgA, pkgB");
            assert_eq!(dependent_packages, vec!["pkgC".to_string()]);
        },
        Ok(()) => panic!("pkgC still needs pkgB"),
    }
}

#[test]
fn installable_with_available_command() {
    let graph = DependencyGraph::from_installed_packages(&empty_list());
    let pkg = create_package("tool", "1.0", None, None, None, Some(vec!["git".to_string(), "make".to_string()]));
    let cmds = vec!["git".to_string()];
    match graph.is_packages_installable(vec![pkg.clone()], &cmds) {
        Err(InstallError::MissingSystemCommands { package, missing_cmds }) => {
            assert_eq!(package, "tool");
            assert_eq!(missing_cmds, vec!["make".to_string()]);
        },
        _ => panic!("make is missing"),
    }
    let cmds = vec!["make".to_string(), "git".to_string()];
    assert!(graph.is_packages_installable(vec![pkg], &cmds).is_ok());
}

#[test]
fn installable_dependency_met_by_virtual_of_new_package() {
    let graph = DependencyGraph::from_installed_packages(&empty_list());
    let provider = create_package(
        "provider",
        "1.0",
        None,
        None,
        Some(vec![PackageVersion { name: "virt".to_string(), version: Version::from_str("2.0").unwrap() }]),
        None,
    );
    let user = create_package("user", "1.0", Some(vec![vec![range("virt", ">= 2.0")]]), None, None, None);
    assert!(graph.is_packages_installable(vec![user.clone(), provider], &no_cmds()).is_ok());
    match graph.is_packages_installable(vec![user], &no_cmds()) {
        Err(InstallError::MissingDependencies { package, missing }) => {
            assert_eq!(package, "user");
            assert_eq!(missing.len(), 1);
            assert_eq!(missing[0][0].name, "virt");
        },
        _ => panic!("virt is missing"),
    }
}

#[test]
fn has_conflicts_with_packages_finds_first() {
    let graph = DependencyGraph::from_installed_packages(&empty_list());
    let a = create_package("a", "1.0", None, Some(vec![range("c", "*")]), None, None);
    let b = create_package("b", "1.0", None, None, None, None);
    let c = create_package("c", "1.0", None, None, None, None);
    assert_eq!(graph.has_conflicts_with_packages(&a, &[&b, &c]), Some("c".to_string()));
    assert_eq!(graph.has_conflicts_with_packages(&c, &[&b, &a]), Some("a".to_string()));
    assert_eq!(graph.has_conflicts_with_packages(&b, &[&a, &c]), None);
}

#[test]
fn without_packages_drops_their_pairs() {
    let pkg_a = create_package(
        "pkgA",
        "1.0",
        None,
        None,
        Some(vec![PackageVersion { name: "virtA".to_string(), version: Version::from_str("1.0").unwrap() }]),
        None,
    );
    let pkg_b = create_package("pkgB", "2.0", None, None, None, None);
    let graph = DependencyGraph::from_installed_packages(&setup_package_list(vec![pkg_a, pkg_b]));
    let rest = graph.without_packages(&["pkgA"]);
    assert!(!rest.get_real_packages().contains_key("pkgA"));
    assert!(!rest.get_available_packages().contains_key("virtA"));
    assert!(rest.get_real_packages().contains_key("pkgB"));
    assert_eq!(rest.installed_package_data.len(), 1);
    assert_eq!(rest.installed_package_data[0].info.about.package.name, "pkgB");
}

#[test]
fn with_additional_packages_adds_pairs() {
    let graph = DependencyGraph::from_installed_packages(&empty_list());
    let pkg = create_package(
        "new",
        "3.1",
        None,
        None,
        Some(vec![PackageVersion { name: "virtN".to_string(), version: Version::from_str("0.5").unwrap() }]),
        None,
    );
    let more = graph.with_additional_packages(&[pkg]);
    assert!(more.get_real_packages().get("new").unwrap().contains(&Version::from_str("3.1").unwrap()));
    assert!(more.get_available_packages().contains_key("virtN"));
    assert!(!more.get_real_packages().contains_key("virtN"));
    assert_eq!(more.installed_package_data.len(), 1);
}

fn names(list: &[PackageData]) -> Vec<String> {
    list.iter().map(|p| p.about.package.name.clone()).collect()
}

#[test]
fn topological_sort_orders_dependencies_first() {
    let graph = DependencyGraph::from_installed_packages(&empty_list());
    let app = create_package("app", "1.0", Some(vec![vec![range("lib", "*")]]), None, None, None);
    let lib = create_package("lib", "1.0", Some(vec![vec![range("base", "*")]]), None, None, None);
    let base = create_package("base", "1.0", None, None, None, None);
    let sorted = graph.topological_sort_packages_for_install(&[app, lib, base]).unwrap();
    assert_eq!(names(&sorted), vec!["base".to_string(), "lib".to_string(), "app".to_string()]);
}

#[test]
fn topological_sort_ignores_dependencies_met_by_installed() {
    let installed = create_package("lib", "1.0", None, None, None, None);
    let graph = DependencyGraph::from_installed_packages(&setup_package_list(vec![installed]));
    let app = create_package("app", "1.0", Some(vec![vec![range("lib", "*")]]), None, None, None);
    let lib = create_package("lib", "2.0", Some(vec![vec![range("app", "*")]]), None, None, None);
    let sorted = graph.topological_sort_packages_for_install(&[app, lib]).unwrap();
    assert_eq!(names(&sorted), vec!["app".to_string(), "lib".to_string()]);
}

#[test]
fn topological_sort_reports_cycle() {
    let graph = DependencyGraph::from_installed_packages(&empty_list());
    let a = create_package("a", "1.0", Some(vec![vec![range("b", "*")]]), None, None, None);
    let b = create_package("b", "1.0", Some(vec![vec![range("a", "*")]]), None, None, None);
    let c = create_package("c", "1.0", None, None, None, None);
    let d = create_package("d", "1.0", Some(vec![vec![range("a", "*")]]), None, None, None);
    match graph.topological_sort_packages_for_install(&[a, b, c, d]) {
        Err(InstallError::CyclicDependencies { packages }) => {
            assert_eq!(packages, vec!["a".to_string(), "b".to_string(), "d".to_string()]);
        },
        _ => panic!("a and b depend on each other"),
    }
}

#[test]
fn topological_sort_accepts_either_alternative() {
    let graph = DependencyGraph::from_installed_packages(&empty_list());
    let app = create_package("app", "1.0", Some(vec![vec![range("x", "*"), range("y", "*")]]), None, None, None);
    let y = create_package("y", "1.0", None, None, None, None);
    let sorted = graph.topological_sort_packages_for_install(&[app, y]).unwrap();
    assert_eq!(names(&sorted), vec!["y".to_string(), "app".to_string()]);
}

#[test]
fn topological_sort_refuses_duplicate_names() {
    let graph = DependencyGraph::from_installed_packages(&empty_list());
    let a1 = create_package("a", "1.0", None, None, None, None);
    let a2 = create_package("a", "2.0", None, None, None, None);
    match graph.topological_sort_packages_for_install(&[a1, a2]) {
        Err(InstallError::CyclicDependencies { packages }) => assert!(packages.is_empty()),
        _ => panic!("two packages share a name"),
    }
}

#[test]
fn topological_sort_reports_unresolved_dependency() {
    let graph = DependencyGraph::new();
    let q = create_package("q", "1.0", None, None, None, None);
    let p = create_package("p", "1.0", Some(vec![vec![range("missing", ">= 1.0")]]), None, None, None);
    match graph.topological_sort_packages_for_install(&[q, p]) {
        Err(InstallError::MissingDependencies { package, missing }) => {
            assert_eq!(package, "p");
            assert_eq!(missing.len(), 1);
            assert_eq!(missing[0][0].name, "missing");
        },
        _ => panic!("missing is neither installed nor in the batch"),
    }
}
