use ipak::lock::{after_attempt, is_stale, LockStep};
use ipak::paths::parent_dir;
use ipak::pkg::{AuthorAboutData, PackageData};
use ipak::project::{packs_file, PackageTarget, ProjectTemplateType};
use ipak::templates::plan;
use ipak::version::{Version, VersionRange};

fn strings(v: &[&str]) -> Vec<String> {
    v.iter().map(|s| s.to_string()).collect()
}

#[test]
fn packs_file_follows_target_lists() {
    let sb = strings(&["*.o", "target/"]);
    let normal = strings(&["*.log"]);
    let min = strings(&["*.md"]);
    assert_eq!(packs_file(PackageTarget::Normal, "/proj", &sb, &normal, &min, "src/a.o"), Ok(false));
    assert_eq!(packs_file(PackageTarget::Normal, "/proj", &sb, &normal, &min, "src/a.rs"), Ok(true));
    assert_eq!(packs_file(PackageTarget::SourceBuild, "/proj", &sb, &normal, &min, "run.log"), Ok(true));
    assert_eq!(packs_file(PackageTarget::Normal, "/proj", &sb, &normal, &min, "run.log"), Ok(false));
    assert_eq!(packs_file(PackageTarget::Normal, "/proj", &sb, &normal, &min, "README.md"), Ok(true));
    assert_eq!(packs_file(PackageTarget::Min, "/proj", &sb, &normal, &min, "README.md"), Ok(false));
    assert_eq!(packs_file(PackageTarget::Normal, "/proj", &sb, &normal, &min, "ipak/package/app-1.0.ipak"), Ok(false));
    // a file is matched as a directory would be, so `target/` leaves out a file named `target`
    assert_eq!(packs_file(PackageTarget::Normal, "/proj", &sb, &normal, &min, "target"), Ok(false));
}

#[test]
fn lock_steps() {
    assert_eq!(after_attempt(true, 999_999), LockStep::Acquired);
    assert_eq!(after_attempt(false, 60_001), LockStep::GiveUp);
    assert_eq!(after_attempt(false, 60_000), LockStep::Retry);
    assert!(!is_stale(None));
    assert!(!is_stale(Some(10)));
    assert!(is_stale(Some(60_001)));
}

fn data() -> PackageData {
    let mut d = PackageData::with_author(AuthorAboutData { name: "Ann".to_string(), email: "a@b.c".to_string() });
    d.about.package.name = "demo".to_string();
    d.architecture.push("x86_64".to_string());
    d.relation.depend_cmds.push("make".to_string());
    d
}

#[test]
fn template_plans() {
    let p = plan(ProjectTemplateType::Rust, data());
    assert_eq!(p.pkg_data.about.package.version.to_string(), "0.1.0");
    assert_eq!(p.pkg_data.architecture, vec!["x86_64".to_string()]);
    assert_eq!(p.required_cmd, Some("cargo".to_string()));
    assert_eq!(p.init_command, Some(("cargo".to_string(), strings(&["init"]))));
    let c = plan(ProjectTemplateType::CLang, data());
    assert_eq!(c.pkg_data.relation.depend_cmds, strings(&["make", "cmake"]));
    assert_eq!(c.pkg_data.about.package.version.to_string(), "1.0.0");
    assert_eq!(c.required_cmd, Some("cmake".to_string()));
    assert_eq!(c.init_command, None);
    let d = plan(ProjectTemplateType::Dotnet, data());
    assert_eq!(d.pkg_data.relation.depend_cmds, strings(&["make", "dotnet"]));
    assert_eq!(d.init_command, Some(("dotnet".to_string(), strings(&["new", "console", "--output=./"]))));
    let y = plan(ProjectTemplateType::Python, data());
    assert_eq!(y.required_cmd, Some("python3".to_string()));
    assert_eq!(y.pkg_data.relation.depend_cmds, strings(&["make"]));
    let z = plan(ProjectTemplateType::Default, data());
    assert_eq!(z.required_cmd, None);
    assert_eq!(z.files.len(), 5);
}

#[test]
fn adding_a_bound_narrows_the_range() {
    let r = VersionRange::from_str(">= 1.0, < 2.0").unwrap();
    assert!(r.compare(&Version::from_str("1.5").unwrap()));
    assert!(!r.compare(&Version::from_str("2.0").unwrap()));
    assert!(!r.compare(&Version::from_str("0.9").unwrap()));
    // the quirk: `<` after a `<=` bound keeps `<=`
    let q = VersionRange::from_str("<= 3.0, < 2.0").unwrap();
    assert!(q.compare(&Version::from_str("2.0").unwrap()));
}

#[test]
fn packs_file_error_and_nesting() {
    let sb: Vec<String> = vec![];
    let normal = strings(&["*.log"]);
    let min = strings(&["*.md", "docs/*.txt"]);
    for rel in ["a.log", "README.md", "docs/x.txt", "src/main.rs"] {
        let s = packs_file(PackageTarget::SourceBuild, "/p", &sb, &normal, &min, rel).unwrap();
        let n = packs_file(PackageTarget::Normal, "/p", &sb, &normal, &min, rel).unwrap();
        let m = packs_file(PackageTarget::Min, "/p", &sb, &normal, &min, rel).unwrap();
        assert!(!m || n, "{}", rel);
        assert!(!n || s, "{}", rel);
    }
}

#[test]
fn parent_directories() {
    assert_eq!(parent_dir("/a/b"), Some("/a".to_string()));
    assert_eq!(parent_dir("/a"), Some("/".to_string()));
    assert_eq!(parent_dir("/"), None);
    assert_eq!(parent_dir(""), None);
    assert_eq!(parent_dir("name"), Some(String::new()));
}
