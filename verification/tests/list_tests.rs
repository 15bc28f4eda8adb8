use ipak::list::{lines_of, InstalledPackageData, PackageListData};
use ipak::pkg::{AuthorAboutData, PackageData};

fn entry(name: &str, when: &str) -> InstalledPackageData {
    let mut info = PackageData::with_author(AuthorAboutData { name: "a".to_string(), email: "e".to_string() });
    info.about.package.name = name.to_string();
    InstalledPackageData { info, last_modified: when.to_string() }
}

#[test]
fn add_replaces_or_appends() {
    let mut list = PackageListData::empty_at("t0".to_string());
    assert!(!list.add_pkg(entry("a", "t1")));
    assert!(!list.add_pkg(entry("b", "t2")));
    assert!(list.add_pkg(entry("a", "t3")));
    assert_eq!(list.installed_packages.len(), 2);
    assert_eq!(list.installed_packages[0].info.about.package.name, "a");
    assert_eq!(list.installed_packages[0].last_modified, "t3");
    assert_eq!(list.installed_packages[1].last_modified, "t2");
    assert!(list.contains_package("b"));
    assert!(!list.contains_package("c"));
}

#[test]
fn delete_removes_every_entry_with_name() {
    let mut list = PackageListData::empty_at("t0".to_string());
    list.installed_packages.push(entry("a", "t1"));
    list.installed_packages.push(entry("b", "t2"));
    list.installed_packages.push(entry("a", "t3"));
    assert!(list.del_pkg("a"));
    assert_eq!(list.installed_packages.len(), 1);
    assert_eq!(list.installed_packages[0].info.about.package.name, "b");
    assert!(!list.del_pkg("a"));
    assert_eq!(list.last_modified, "t0");
}

#[test]
fn list_text() {
    let list = PackageListData::empty_at("2024-01-01T00:00:00+00:00".to_string());
    assert_eq!(
        list.to_string(),
        "\x1b[1m\x1b[32mLast Modified\x1b[0m\x1b[0m: 2024-01-01T00:00:00+00:00\n\x1b[1m\x1b[36mPackages\x1b[0m\x1b[0m:\n  No packages installed in this scope.\n"
    );
    let mut list = PackageListData::empty_at("t".to_string());
    list.installed_packages.push(entry("a", "w"));
    let text = list.to_string();
    assert!(text.ends_with("\x1b[1mLast Modified\x1b[0m: w\n\n"));
    let e = entry("a", "w");
    assert_eq!(
        e.to_string(),
        "  \x1b[1mName\x1b[0m: \x1b[36ma\x1b[0m\n    \x1b[1mVersion\x1b[0m: 1.0.0\n    \x1b[1mAuthor\x1b[0m: a <e>\n    \x1b[1mLast Modified\x1b[0m: w\n"
    );
}

#[test]
fn installed_entry_with_relations() {
    let mut e = entry("a", "w");
    e.info.relation.depend_cmds.push("git".to_string());
    assert!(e.to_string().ends_with(
        "    \x1b[1mRelations:\x1b[0m\n      \n      \x1b[1mNecessary Commands:\x1b[0m\n        - \x1b[32mgit\x1b[0m\n"
    ));
}

#[test]
fn text_lines() {
    assert_eq!(lines_of("a\nb\r\n\nc\n"), vec!["a".to_string(), "b".to_string(), "".to_string(), "c".to_string()]);
    assert!(lines_of("").is_empty());
    assert_eq!(lines_of("x"), vec!["x".to_string()]);
}
