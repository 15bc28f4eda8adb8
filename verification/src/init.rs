//! Setting up ipak in an existing project: which language the project is
//! written in, and the name and version that its own manifest gives.
use crate::pkg::PackageData;
use crate::shell::occurs_at;
use crate::templates::{
    ignore_file, push_ignore, push_readme, push_scripts, readme_file, script_files, TemplateFile, TemplateFileView,
};
use crate::text::{chars_of, string_of, trim, trim_str};
use crate::version::{is_version_text, Version};
use vstd::prelude::*;

verus! {

/// The language of a project, as its manifest shows it.
#[derive(Debug, Clone, Copy, PartialEq, Eq, Structural)]
pub enum PackageLanguage {
    /// A `pyproject.toml`.
    Python,
    /// A `Cargo.toml`.
    Rust,
    /// A `.csproj` file.
    DotNet,
    /// None of these.
    Other,
}

impl PackageLanguage {
    /// `python`, `rust`, `dotnet` or `other`.
    pub fn to_string(&self) -> (r: String)
        ensures
            r@ == match *self {
                PackageLanguage::Python => "python"@,
                PackageLanguage::Rust => "rust"@,
                PackageLanguage::DotNet => "dotnet"@,
                PackageLanguage::Other => "other"@,
            },
    {
        match self {
            PackageLanguage::Python => string_of("python"),
            PackageLanguage::Rust => string_of("rust"),
            PackageLanguage::DotNet => string_of("dotnet"),
            PackageLanguage::Other => string_of("other"),
        }
    }
}

/// The language of a project whose directory has a `Cargo.toml`
/// (`has_cargo`), a `pyproject.toml` (`has_pyproject`), and a `.csproj` file
/// somewhere below it (`has_csproj`): the first of these that is present.
pub fn detect_language(has_cargo: bool, has_pyproject: bool, has_csproj: bool) -> (r: PackageLanguage)
    ensures
        r == (if has_cargo {
            PackageLanguage::Rust
        } else if has_pyproject {
            PackageLanguage::Python
        } else if has_csproj {
            PackageLanguage::DotNet
        } else {
            PackageLanguage::Other
        }),
{
    if has_cargo {
        PackageLanguage::Rust
    } else if has_pyproject {
        PackageLanguage::Python
    } else if has_csproj {
        PackageLanguage::DotNet
    } else {
        PackageLanguage::Other
    }
}

/// Whether the search for a `.csproj` file passes over the directory named
/// `name`: build outputs and installed modules.
pub fn skips_directory(name: &str) -> (r: bool)
    ensures
        r == (name@ == "target"@ || name@ == "node_modules"@ || name@ == "bin"@ || name@ == "obj"@),
{
    crate::text::str_eq(name, "target") || crate::text::str_eq(name, "node_modules") || crate::text::str_eq(
        name,
        "bin",
    ) || crate::text::str_eq(name, "obj")
}

/// The position of the first occurrence of `pat` in `s`, if any.
pub open spec fn first_occurrence(s: Seq<char>, pat: Seq<char>) -> Option<int> {
    if exists|i: int| occurs_at(s, pat, i) {
        Some(choose|i: int| occurs_at(s, pat, i) && forall|j: int| 0 <= j < i ==> !occurs_at(s, pat, j))
    } else {
        None
    }
}

/// The text between the first `open` tag of `s` and the first `close` tag
/// after it, trimmed.
pub open spec fn tag_value(s: Seq<char>, open: Seq<char>, close: Seq<char>) -> Option<Seq<char>> {
    match first_occurrence(s, open) {
        None => None,
        Some(st) => match first_occurrence(s.skip(st), close) {
            None => None,
            Some(e) => Some(trim(s.subrange(st + open.len(), st + e))),
        },
    }
}

/// The position of the first occurrence of `pat` in `s` at or after `from`.
fn find_from(s: &Vec<char>, pat: &Vec<char>, from: usize) -> (r: Option<usize>)
    requires
        from <= s@.len(),
    ensures
        match r {
            Some(i) => from <= i && occurs_at(s@, pat@, i as int) && forall|j: int|
                from <= j < i ==> !occurs_at(s@, pat@, j),
            None => forall|j: int| from <= j ==> !occurs_at(s@, pat@, j),
        },
{
    if pat.len() > s.len() - from {
        return None;
    }
    let last = s.len() - pat.len();
    let mut i: usize = from;
    while i <= last
        invariant
            from <= i,
            pat@.len() <= s@.len(),
            last == s@.len() - pat@.len(),
            i <= last + 1,
            forall|j: int| from <= j < i ==> !occurs_at(s@, pat@, j),
        decreases last + 1 - i,
    {
        let mut k: usize = 0;
        let mut same = true;
        while k < pat.len()
            invariant
                i <= last,
                pat.len() <= s.len(),
                last == s.len() - pat.len(),
                k <= pat@.len(),
                same == forall|m: int| 0 <= m < k ==> s@[i + m] == pat@[m],
            decreases pat.len() - k,
        {
            if s[i + k] != pat[k] {
                same = false;
            }
            k = k + 1;
        }
        if same {
            assert(s@.subrange(i as int, i + pat@.len()) =~= pat@);
            return Some(i);
        }
        proof {
            if occurs_at(s@, pat@, i as int) {
                let m = choose|m: int| 0 <= m < pat@.len() && s@[i + m] != pat@[m];
                assert(s@.subrange(i as int, i + pat@.len())[m] == s@[i + m]);
            }
        }
        if i == last {
            return None;
        }
        i = i + 1;
    }
    None
}

proof fn lemma_first_occurrence(s: Seq<char>, pat: Seq<char>, i: int)
    requires
        occurs_at(s, pat, i),
        forall|j: int| 0 <= j < i ==> !occurs_at(s, pat, j),
    ensures
        first_occurrence(s, pat) == Some(i),
{
    let k = choose|k: int| occurs_at(s, pat, k) && forall|j: int| 0 <= j < k ==> !occurs_at(s, pat, j);
    if k < i {
        assert(!occurs_at(s, pat, k));
    }
    if k > i {
        assert(!occurs_at(s, pat, i));
    }
}

proof fn lemma_occurs_shift(s: Seq<char>, pat: Seq<char>, st: int, j: int)
    requires
        0 <= st <= s.len(),
        0 <= j,
    ensures
        occurs_at(s.skip(st), pat, j) == occurs_at(s, pat, st + j),
{
    if occurs_at(s, pat, st + j) {
        assert(s.skip(st).subrange(j, j + pat.len()) =~= s.subrange(st + j, st + j + pat.len()));
    }
    if occurs_at(s.skip(st), pat, j) {
        assert(s.skip(st).subrange(j, j + pat.len()) =~= s.subrange(st + j, st + j + pat.len()));
    }
}

/// A closing tag `</X>` cannot start inside an opening tag `<X>` at the
/// same place in a text.
proof fn lemma_close_after_open(s: Seq<char>, open: Seq<char>, close: Seq<char>, st: int, e: int)
    requires
        occurs_at(s, open, st),
        occurs_at(s, close, st + e),
        0 <= e,
        open.len() >= 2,
        close.len() >= 2,
        open[0] == '<',
        close[0] == '<',
        close[1] == '/',
        open[1] != '/',
        forall|k: int| 1 <= k < open.len() ==> open[k] != '<',
    ensures
        e >= open.len(),
{
    if e < open.len() {
        assert(s[st + e] == close[0]) by {
            assert(s.subrange(st + e, st + e + close.len())[0] == s[st + e]);
        }
        assert(s[st + e] == open[e]) by {
            assert(s.subrange(st, st + open.len())[e] == s[st + e]);
        }
        if e == 0 {
            assert(s[st + 1] == close[1]) by {
                assert(s.subrange(st, st + close.len())[1] == s[st + 1]);
            }
            assert(s[st + 1] == open[1]) by {
                assert(s.subrange(st, st + open.len())[1] == s[st + 1]);
            }
        }
    }
}

/// The trimmed text between the first `open` tag of `content` and the first
/// `close` tag after it.
fn tag_text(content: &Vec<char>, open: &str, close: &str) -> (r: Option<String>)
    requires
        open@.len() >= 2,
        close@.len() >= 2,
        open@[0] == '<',
        close@[0] == '<',
        close@[1] == '/',
        open@[1] != '/',
        forall|k: int| 1 <= k < open@.len() ==> open@[k] != '<',
    ensures
        match tag_value(content@, open@, close@) {
            Some(v) => r matches Some(t) && t@ == v,
            None => r is None,
        },
{
    let o = chars_of(open);
    let c = chars_of(close);
    match find_from(content, &o, 0) {
        None => {
            assert(forall|j: int| !occurs_at(content@, open@, j)) by {
                assert forall|j: int| !occurs_at(content@, open@, j) by {
                    if j < 0 {
                    }
                }
            }
            None
        },
        Some(st) => {
            proof {
                lemma_first_occurrence(content@, open@, st as int);
            }
            match find_from(content, &c, st) {
                None => {
                    proof {
                        assert forall|j: int| !occurs_at(content@.skip(st as int), close@, j) by {
                            if 0 <= j {
                                lemma_occurs_shift(content@, close@, st as int, j);
                            }
                        }
                    }
                    None
                },
                Some(end) => {
                    let e = end - st;
                    proof {
                        lemma_occurs_shift(content@, close@, st as int, e as int);
                        assert forall|j: int| 0 <= j < e implies !occurs_at(content@.skip(st as int), close@, j) by {
                            lemma_occurs_shift(content@, close@, st as int, j);
                        }
                        lemma_first_occurrence(content@.skip(st as int), close@, e as int);
                        lemma_close_after_open(content@, open@, close@, st as int, e as int);
                    }
                    let from = st + o.len();
                    let mut piece = String::new();
                    let mut k: usize = from;
                    while k < end
                        invariant
                            from <= k <= end,
                            end <= content@.len(),
                            piece@ == content@.subrange(from as int, k as int),
                        decreases end - k,
                    {
                        crate::text::push_char(&mut piece, content[k]);
                        assert(piece@ =~= content@.subrange(from as int, k + 1));
                        k = k + 1;
                    }
                    Some(string_of(trim_str(piece.as_str())))
                },
            }
        },
    }
}

/// The name (`<AssemblyName>`) and version (`<Version>`) that the text of a
/// `.csproj` file gives, when it gives both.
pub fn parse_csproj(content: &str) -> (r: Option<(String, String)>)
    ensures
        match (
            tag_value(content@, "<AssemblyName>"@, "</AssemblyName>"@),
            tag_value(content@, "<Version>"@, "</Version>"@),
        ) {
            (Some(n), Some(v)) => r matches Some((rn, rv)) && rn@ == n && rv@ == v,
            _ => r is None,
        },
{
    let cs = chars_of(content);
    proof {
        reveal_strlit("<AssemblyName>");
        reveal_strlit("</AssemblyName>");
        reveal_strlit("<Version>");
        reveal_strlit("</Version>");
    }
    let name = tag_text(&cs, "<AssemblyName>", "</AssemblyName>");
    let version = tag_text(&cs, "<Version>", "</Version>");
    match (name, version) {
        (Some(n), Some(v)) => Some((n, v)),
        _ => None,
    }
}

/// What parsing `content` as a TOML document and reading the string under
/// `key` in its table `table` gives (`None` when the document does not
/// parse, the table or the key is missing, or the value is not a string).
pub uninterp spec fn toml_string(content: Seq<char>, table: Seq<char>, key: Seq<char>) -> Option<Seq<char>>;

/// The string under `key` in the table `table` of the TOML document `content`.
///
/// Parses the document with `toml::Table`'s `FromStr`, then reads it with
/// `Table::get`, `Value::get` and `Value::as_str`; the contract names the
/// outcome without stating it.
#[verifier::external_body]
fn toml_lookup(content: &str, table: &str, key: &str) -> (r: Option<String>)
    ensures
        match toml_string(content@, table@, key@) {
            Some(v) => r matches Some(s) && s@ == v,
            None => r is None,
        },
{
    let doc = content.parse::<toml::Table>().ok()?;
    doc.get(table)?.get(key)?.as_str().map(|s| s.to_string())
}

/// The name and version under the table `table` of a TOML manifest, when it
/// gives both.
pub fn manifest_name_version(content: &str, table: &str) -> (r: Option<(String, String)>)
    ensures
        match (toml_string(content@, table@, "name"@), toml_string(content@, table@, "version"@)) {
            (Some(n), Some(v)) => r matches Some((rn, rv)) && rn@ == n && rv@ == v,
            _ => r is None,
        },
{
    let name = toml_lookup(content, table, "name");
    let version = toml_lookup(content, table, "version");
    match (name, version) {
        (Some(n), Some(v)) => Some((n, v)),
        _ => None,
    }
}

/// The name and version of a Rust project, from the `package` table of its
/// `Cargo.toml`.
pub fn parse_cargo_toml(content: &str) -> (r: Option<(String, String)>)
    ensures
        match (toml_string(content@, "package"@, "name"@), toml_string(content@, "package"@, "version"@)) {
            (Some(n), Some(v)) => r matches Some((rn, rv)) && rn@ == n && rv@ == v,
            _ => r is None,
        },
{
    manifest_name_version(content, "package")
}

/// The name and version of a Python project, from the `project` table of its
/// `pyproject.toml`.
pub fn parse_pyproject_toml(content: &str) -> (r: Option<(String, String)>)
    ensures
        match (toml_string(content@, "project"@, "name"@), toml_string(content@, "project"@, "version"@)) {
            (Some(n), Some(v)) => r matches Some((rn, rv)) && rn@ == n && rv@ == v,
            _ => r is None,
        },
{
    manifest_name_version(content, "project")
}

/// Takes over into `pkg` the name and version that a manifest gave: the
/// version when it reads as one, else `1.0.0`. Nothing changes without them.
pub fn apply_manifest(pkg: &mut PackageData, found: Option<(String, String)>)
    ensures
        match found {
            Some((n, v)) => {
                &&& final(pkg).about.package.name@ == n@
                &&& final(pkg).about.package.version@ == (if is_version_text(v@) {
                    v@
                } else {
                    "1.0.0"@
                })
                &&& final(pkg).about.package.description@ == old(pkg).about.package.description@
                &&& final(pkg).about.author.deep_view() == old(pkg).about.author.deep_view()
                &&& final(pkg).relation.deep_view() == old(pkg).relation.deep_view()
                &&& final(pkg).architecture.deep_view() == old(pkg).architecture.deep_view()
                &&& final(pkg).mode == old(pkg).mode
            },
            None => final(pkg).deep_view() == old(pkg).deep_view(),
        },
{
    match found {
        Some((n, v)) => {
            pkg.about.package.name = n;
            pkg.about.package.version = match Version::from_str(v.as_str()) {
                Ok(ver) => ver,
                Err(_) => Version::default(),
            };
        },
        None => {},
    }
}

/// The files that setting up ipak writes in a project of the language
/// `lang`: the scripts of its template, its ignore file and the README of the
/// scripts; the default scripts and the README for another language.
pub open spec fn init_files(lang: PackageLanguage) -> Seq<TemplateFileView> {
    match lang {
        PackageLanguage::Rust => script_files("rust"@).push(ignore_file("rust"@)).push(readme_file()),
        PackageLanguage::Python => script_files("python"@).push(ignore_file("python"@)).push(readme_file()),
        PackageLanguage::DotNet => script_files("dotnet"@).push(ignore_file("dotnet"@)).push(readme_file()),
        PackageLanguage::Other => script_files("default"@).push(readme_file()),
    }
}

/// The files that setting up ipak writes in a project of the language `lang`.
pub fn init_file_list(lang: PackageLanguage) -> (r: Vec<TemplateFile>)
    ensures
        r.deep_view() == init_files(lang),
{
    let mut files: Vec<TemplateFile> = Vec::new();
    match lang {
        PackageLanguage::Rust => {
            push_scripts(&mut files, "rust");
            push_ignore(&mut files, "rust");
        },
        PackageLanguage::Python => {
            push_scripts(&mut files, "python");
            push_ignore(&mut files, "python");
        },
        PackageLanguage::DotNet => {
            push_scripts(&mut files, "dotnet");
            push_ignore(&mut files, "dotnet");
        },
        PackageLanguage::Other => {
            push_scripts(&mut files, "default");
        },
    }
    push_readme(&mut files);
    assert(files.deep_view() =~= init_files(lang));
    files
}

} // verus!
