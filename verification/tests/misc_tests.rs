use ipak::archive::{
    ar_archive_entry_name, archive_entry_name, archive_type_of_extension, get_archive_type, source_has_separator,
    tar_entry_name, zip_entry_name, ArchiveType,
};
use ipak::color::{decimal_string, Colorize, ColorizeBg, StyleModifier, RGB};
use ipak::init::{
    apply_manifest, detect_language, parse_cargo_toml, parse_csproj, parse_pyproject_toml, skips_directory,
    PackageLanguage,
};
use ipak::messages::{insert_info, replace_text, CargoPackageInfo};
use ipak::pkg::{AuthorAboutData, PackageData};
use ipak::shell::{is_root_id, pager_arguments, shell_name, str_contains};

#[test]
fn colours() {
    assert_eq!("x".red(), "\x1b[31mx\x1b[0m");
    assert_eq!(String::from("x").green(), "\x1b[32mx\x1b[0m");
    assert_eq!("x".magenta_bg(), "\x1b[45mx\x1b[0m");
    assert_eq!("x".underline(), "\x1b[4mx\x1b[0m");
    assert_eq!(String::from("y").bold(), "\x1b[1my\x1b[0m");
    assert_eq!("z".rgb(RGB::new(255, 8, 0)), "\x1b[38;2;255;8;0mz\x1b[0m");
    assert_eq!(String::from("z").rgb_bg(RGB::new(10, 200, 99)), "\x1b[48;2;10;200;99mz\x1b[0m");
    assert_eq!(RGB::new(255, 8, 171).to_string(), "#FF08AB");
    assert_eq!(decimal_string(0), "0");
    assert_eq!(decimal_string(100), "100");
}

#[test]
fn archive_types() {
    assert_eq!(ArchiveType::from_str("TGZ"), Ok(ArchiveType::TarGz));
    assert_eq!(ArchiveType::from_str("tar.zstd"), Ok(ArchiveType::TarZstd));
    assert_eq!(ArchiveType::from_str("rar"), Err("Invalid Archive Type: rar".to_string()));
    assert_eq!(ArchiveType::UnixAr.to_string(), "unix archive");
    assert_eq!(ArchiveType::default(), ArchiveType::TarGz);
    assert_eq!(archive_type_of_extension("deb"), Ok(ArchiveType::UnixAr));
    assert_eq!(archive_type_of_extension("png"), Err("png".to_string()));
    let zip_bytes: &[u8] = &[0x50, 0x4B, 0x05, 0x06, 0, 0, 0, 0, 0, 0, 0, 0, 0, 0, 0, 0, 0, 0, 0, 0, 0, 0];
    assert_eq!(get_archive_type(zip_bytes), Ok(ArchiveType::Zip));
    let gz_bytes: &[u8] = &[0x1F, 0x8B, 0x08, 0, 0, 0, 0, 0, 0, 3];
    assert_eq!(get_archive_type(gz_bytes), Ok(ArchiveType::TarGz));
}

#[test]
fn csproj_fields() {
    let content = "<Project>\n  <AssemblyName> Demo </AssemblyName>\n  <Version>1.4.0</Version>\n</Project>";
    assert_eq!(parse_csproj(content), Some(("Demo".to_string(), "1.4.0".to_string())));
    assert_eq!(parse_csproj("<AssemblyName>Demo</AssemblyName>"), None);
    assert_eq!(parse_csproj("<AssemblyName>Demo<Version>1</Version>"), None);
}

#[test]
fn toml_manifests() {
    let cargo = "[package]\nname = \"demo\"\nversion = \"0.2.0\"\n";
    assert_eq!(parse_cargo_toml(cargo), Some(("demo".to_string(), "0.2.0".to_string())));
    assert_eq!(parse_cargo_toml("[package]\nname = \"demo\"\n"), None);
    assert_eq!(parse_cargo_toml("not toml ["), None);
    let py = "[project]\nname = \"pydemo\"\nversion = \"1.0\"\n";
    assert_eq!(parse_pyproject_toml(py), Some(("pydemo".to_string(), "1.0".to_string())));
    assert_eq!(parse_pyproject_toml(cargo), None);
}

#[test]
fn init_decisions() {
    assert_eq!(detect_language(true, true, true), PackageLanguage::Rust);
    assert_eq!(detect_language(false, true, true), PackageLanguage::Python);
    assert_eq!(detect_language(false, false, true), PackageLanguage::DotNet);
    assert_eq!(detect_language(false, false, false), PackageLanguage::Other);
    assert_eq!(PackageLanguage::DotNet.to_string(), "dotnet");
    assert!(skips_directory("node_modules"));
    assert!(!skips_directory("src"));
    let mut pkg = PackageData::with_author(AuthorAboutData { name: "a".to_string(), email: "b".to_string() });
    apply_manifest(&mut pkg, Some(("demo".to_string(), "0.2.0".to_string())));
    assert_eq!(pkg.about.package.name, "demo");
    assert_eq!(pkg.about.package.version.to_string(), "0.2.0");
    apply_manifest(&mut pkg, Some(("demo2".to_string(), "dev".to_string())));
    assert_eq!(pkg.about.package.version.to_string(), "1.0.0");
    apply_manifest(&mut pkg, None);
    assert_eq!(pkg.about.package.name, "demo2");
}

#[test]
fn replacing_text() {
    assert_eq!(replace_text("aaa", "aa", "b"), "ba");
    assert_eq!(replace_text("x{y}x", "{y}", ""), "xx");
    let info = CargoPackageInfo {
        name: "ipak".to_string(),
        version: "0.1.0".to_string(),
        architecture: "x86_64".to_string(),
    };
    assert_eq!(insert_info("{name} {version} on {architecture}; {name}", &info), "ipak 0.1.0 on x86_64; ipak");
}

#[test]
fn shell_helpers() {
    assert!(is_root_id("uid=0(root) gid=0(root) groups=0(root)"));
    assert!(!is_root_id("uid=1000(ann) gid=1000(ann)"));
    assert!(str_contains("abc", ""));
    assert_eq!(shell_name(Some("/usr/bin/zsh")), "zsh");
    assert_eq!(shell_name(Some("fish")), "fish");
    assert_eq!(shell_name(None), "unknown");
}

#[test]
fn own_version_reads() {
    assert_eq!(ipak::version("0.1.42").to_string(), "0.1.42");
}

fn rgb_parts(s: &str) -> Result<(u8, u8, u8), String> {
    RGB::from_str(s).map(|c| (c.red, c.green, c.blue))
}

#[test]
fn rgb_from_hex_text() {
    assert_eq!(rgb_parts("#FF0080"), Ok((255, 0, 128)));
    assert_eq!(rgb_parts("#ff08ab"), Ok((255, 8, 171)));
    assert_eq!(rgb_parts("#+f0000"), Ok((15, 0, 0)));
    assert_eq!(rgb_parts("FF0080"), Err("無効なカラーコードです: FF0080".to_string()));
    assert_eq!(rgb_parts("#FF00801"), Err("無効なカラーコードです: #FF00801".to_string()));
    assert_eq!(rgb_parts("#GG0000"), Err("無効な赤色値です: GG".to_string()));
    assert_eq!(rgb_parts("#00GG00"), Err("無効な緑色値です: GG".to_string()));
    assert_eq!(rgb_parts("#0000-1"), Err("無効な青色値です: -1".to_string()));
    assert_eq!(rgb_parts("#é1234"), Err("無効な赤色値です: é".to_string()));
    assert_eq!(RGB::from_str(&RGB::new(1, 2, 3).to_string()).map(|c| c.blue), Ok(3));
}

#[test]
fn archive_entry_names() {
    assert!(source_has_separator("pkg/"));
    assert!(source_has_separator("pkg\\"));
    assert!(!source_has_separator("pkg"));
    assert!(!source_has_separator(""));
    assert_eq!(archive_entry_name(true, "pkg", "src\\main.rs"), "src/main.rs");
    assert_eq!(archive_entry_name(false, "pkg", ""), "pkg");
    assert_eq!(archive_entry_name(false, "pkg", "src\\main.rs"), "pkg/src/main.rs");
    assert_eq!(ar_archive_entry_name(false, "pkg", "a\\b"), "pkg/a\\b");
    assert_eq!(ar_archive_entry_name(true, "pkg", "a/b"), "a/b");
    assert_eq!(zip_entry_name(true, "pkg", "", true), None);
    assert_eq!(zip_entry_name(false, "pkg", "", true), Some("pkg/".to_string()));
    assert_eq!(zip_entry_name(true, "pkg", "a.txt", false), Some("a.txt".to_string()));
    assert_eq!(tar_entry_name(true, "pkg", "", true), Ok(None));
    assert_eq!(tar_entry_name(false, "pkg", "bin", true), Ok(Some("pkg/bin/".to_string())));
    assert_eq!(tar_entry_name(false, "pkg", "bin/x", false), Ok(Some("pkg/bin/x".to_string())));
    let long = "a".repeat(97);
    assert_eq!(tar_entry_name(false, "pkg", &long, false), Err(format!("Path too long for tar: pkg/{}", long)));
    let fits = "a".repeat(96);
    assert_eq!(tar_entry_name(false, "pkg", &fits, false), Ok(Some(format!("pkg/{}", fits))));
    assert_eq!(tar_entry_name(true, "pkg", &"é".repeat(51), false), Err(format!("Path too long for tar: {}", "é".repeat(51))));
}

#[test]
fn pager_arguments_for_less_only() {
    assert_eq!(pager_arguments("less"), vec!["-R", "-F", "-X", "-"]);
    assert_eq!(pager_arguments("LeSS"), vec!["-R", "-F", "-X", "-"]);
    assert!(pager_arguments("more").is_empty());
    assert!(pager_arguments("lesser").is_empty());
}

#[test]
fn tar_entry_for_long_file_name() {
    let long = "a".repeat(150);
    let r = tar_entry_name(false, "dir-a", &long, false);
    assert_eq!(r, Err(format!("Path too long for tar: dir-a/{}", long)));
}

#[test]
fn entries_of_source_with_and_without_separator() {
    assert_eq!(tar_entry_name(true, "", "", true), Ok(None));
    assert_eq!(tar_entry_name(true, "", "text.txt", false), Ok(Some("text.txt".to_string())));
    assert_eq!(zip_entry_name(false, "zip_dir_b", "", true), Some("zip_dir_b/".to_string()));
    assert_eq!(
        zip_entry_name(false, "zip_dir_b", "zip_inner_text.txt", false),
        Some("zip_dir_b/zip_inner_text.txt".to_string())
    );
    assert_eq!(zip_entry_name(true, "", "", true), None);
    assert_eq!(ar_archive_entry_name(true, "", "ar_text.txt"), "ar_text.txt");
    assert_eq!(ar_archive_entry_name(false, "ar_dir", "ar_text.txt"), "ar_dir/ar_text.txt");
}
