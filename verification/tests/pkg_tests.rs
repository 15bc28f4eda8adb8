use ipak::pkg::{
    AboutData, AuthorAboutData, Mode, PackageAboutData, PackageData, PackageRange, PackageVersion, RelationData,
};
use ipak::version::{Version, VersionRange};

fn base_package() -> PackageData {
    PackageData::with_author(AuthorAboutData { name: "someone".to_string(), email: "someone@host.local".to_string() })
}

#[test]
fn test_display_with_relations_and_new_fields() {
    let mut data = base_package();
    data.about.author = AuthorAboutData { name: "Test Author".to_string(), email: "test@example.com".to_string() };
    data.about.package = PackageAboutData {
        name: "my-package".to_string(),
        version: Version::default(),
        description: "This is a test package for demonstration.".to_string(),
    };
    data.architecture = vec!["x86_64".to_string(), "aarch64".to_string()];
    data.mode = Mode::Global;

    data.relation.depend.push(vec![PackageRange {
        name: "dep-a".to_string(),
        range: VersionRange::from_str(">= 1.0, < 2.0").unwrap(),
    }]);
    data.relation.depend.push(vec![
        PackageRange { name: "dep-b".to_string(), range: VersionRange::from_str("= 2.0.0").unwrap() },
        PackageRange { name: "dep-c".to_string(), range: VersionRange::from_str("> 1.5.0").unwrap() },
    ]);

    data.relation.suggests.push(vec![PackageRange {
        name: "suggest-x".to_string(),
        range: VersionRange::from_str("= 3.0").unwrap(),
    }]);

    data.relation.recommends.push(vec![
        PackageRange { name: "rec-y".to_string(), range: VersionRange::from_str("< 4.0.0").unwrap() },
        PackageRange { name: "rec-z".to_string(), range: VersionRange::from_str("= 4.1.0").unwrap() },
    ]);

    data.relation.conflicts.push(PackageRange {
        name: "old-package".to_string(),
        range: VersionRange::from_str("0.9.0").unwrap(),
    });

    data.relation.virtuals.push(PackageVersion {
        name: "my-virtual-pkg".to_string(),
        version: Version::from_str("1.0.0").unwrap(),
    });

    data.relation.provide_cmds.extend(vec!["my-command".to_string(), "another-command".to_string()]);
    data.relation.depend_cmds.extend(vec!["git".to_string(), "make".to_string()]);

    println!("\n--- Test Display With Relations and New Fields ---");
    println!("{}", data.to_string());
    assert_eq!(data.architecture, vec!["x86_64".to_string(), "aarch64".to_string()]);
    assert_eq!(data.mode, Mode::Global);
}

#[test]
fn test_display_author() {
    let author = AuthorAboutData { name: "Test Author".to_string(), email: "test@example.com".to_string() };
    println!("\n--- Test Display Author ---");
    println!("{}", author.to_string());
}

#[test]
fn author_text() {
    let author = AuthorAboutData { name: "Test Author".to_string(), email: "test@example.com".to_string() };
    assert_eq!(author.to_string(), "Test Author <test@example.com>");
}

#[test]
fn package_text_exact() {
    let mut data = base_package();
    data.about.author = AuthorAboutData { name: "  Ann  ".to_string(), email: "ann@x.org".to_string() };
    data.about.package.name = "tool".to_string();
    data.mode = Mode::Local;
    data.relation.depend.push(vec![PackageRange {
        name: "lib".to_string(),
        range: VersionRange::from_str(">= 1.0").unwrap(),
    }]);
    data.relation.depend.push(vec![
        PackageRange { name: "a".to_string(), range: VersionRange::from_str("*").unwrap() },
        PackageRange { name: "b".to_string(), range: VersionRange::from_str("= 2").unwrap() },
    ]);
    let expected = [
        "\x1b[1mPackage:\x1b[0m \x1b[36mtool\x1b[0m\n",
        "\x1b[1mVersion:\x1b[0m 1.0.0\n",
        "\x1b[1mAuthor:\x1b[0m Ann <ann@x.org>\n",
        "\x1b[1mArchitectures:\x1b[0m \x1b[3many\x1b[0m\n",
        "\x1b[1mInstallation Mode:\x1b[0m local\n",
        "\n\x1b[1mDependencies:\x1b[0m\n",
        "  - \x1b[32mlib (>= 1.0)\x1b[0m\n",
        "  - (\x1b[32ma (*) | b (= 2)\x1b[0m)\n",
    ]
    .concat();
    assert_eq!(data.to_string(), expected);
}

#[test]
fn relation_text_sections() {
    let mut rel = RelationData::default();
    assert!(rel.is_empty());
    assert_eq!(rel.to_string(), "");
    rel.depend_cmds.push("git".to_string());
    rel.virtuals.push(PackageVersion { name: "v".to_string(), version: Version::from_str("1.2").unwrap() });
    assert!(!rel.is_empty());
    assert_eq!(
        rel.to_string(),
        "\n\x1b[1mNecessary Commands:\x1b[0m\n  - \x1b[32mgit\x1b[0m\n\n\x1b[1mVirtual Packages:\x1b[0m\n  - \x1b[35mv (1.2)\x1b[0m\n"
    );
}

#[test]
fn mode_text_and_default() {
    assert_eq!(Mode::default(), Mode::Any);
    assert_eq!(Mode::Any.to_string(), "any (local & global)");
    assert_eq!(Mode::Local.to_string(), "local");
    assert_eq!(Mode::Global.to_string(), "global");
}

#[test]
fn range_and_version_entries() {
    let r = PackageRange { name: "x".to_string(), range: VersionRange::from_str("< 2").unwrap() };
    assert_eq!(r.to_string(), "x (< 2)");
    let v = PackageVersion { name: "y".to_string(), version: Version::from_str("3.1").unwrap() };
    assert_eq!(v.to_string(), "y (3.1)");
    assert_eq!(PackageRange::default().name, "default-dependency");
    assert_eq!(PackageRange::default().to_string(), "default-dependency (*)");
    assert_eq!(PackageVersion::default().to_string(), "default-version (1.0.0)");
}

#[test]
fn package_about_without_description() {
    let about = PackageAboutData::default();
    assert_eq!(about.to_string(), "\x1b[36mdefault-package\x1b[0m (1.0.0)");
    let data = AboutData::with_author(AuthorAboutData { name: "n".to_string(), email: "e".to_string() });
    assert_eq!(data.to_string(), "\x1b[1mAuthor:\x1b[0m n <e>\n\x1b[1mPackage:\x1b[0m \x1b[36mdefault-package\x1b[0m (1.0.0)\n");
}

#[test]
fn author_for_user() {
    let a = AuthorAboutData::for_user("alice", "box");
    assert_eq!(a.name, "alice");
    assert_eq!(a.email, "alice@box.local");
    assert_eq!(ipak::generate_email_address("bob", "srv"), "bob@srv.local");
}
