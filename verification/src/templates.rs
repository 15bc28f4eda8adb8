//! The templates of new projects: which files each writes, from which
//! template text, which command it needs and runs, and how it changes the
//! metadata of the project.
use crate::pkg::{AboutView, PackageAboutView, PackageData, PackageView, RelationView};
use crate::project::{ProjectParams, ProjectTemplateType};
use crate::text::{concat, string_of};
use crate::version::Version;
use vstd::prelude::*;

verus! {

/// A file that a template writes: its path in the project, the template
/// text it is made from, and the placeholder in that text replaced by the
/// project name (if any).
#[derive(Debug)]
pub struct TemplateFile {
    pub path: String,
    pub source: String,
    pub name_placeholder: Option<String>,
}

/// The view of a [`TemplateFile`].
pub struct TemplateFileView {
    pub path: Seq<char>,
    pub source: Seq<char>,
    pub name_placeholder: Option<Seq<char>>,
}

impl DeepView for TemplateFile {
    type V = TemplateFileView;

    open spec fn deep_view(&self) -> TemplateFileView {
        TemplateFileView {
            path: self.path@,
            source: self.source@,
            name_placeholder: match self.name_placeholder {
                Some(p) => Some(p@),
                None => None,
            },
        }
    }
}

/// What setting up a template does: the project metadata it leaves, the
/// command that must be available, the command it runs first (program and
/// arguments), and the files it writes.
#[derive(Debug)]
pub struct TemplatePlan {
    pub pkg_data: PackageData,
    pub required_cmd: Option<String>,
    pub init_command: Option<(String, Vec<String>)>,
    pub files: Vec<TemplateFile>,
}

/// A file made from the template text `source` as it is.
pub open spec fn plain(path: Seq<char>, source: Seq<char>) -> TemplateFileView {
    TemplateFileView { path, source, name_placeholder: None }
}

/// The four scripts of the template directory `dir`.
pub open spec fn script_files(dir: Seq<char>) -> Seq<TemplateFileView> {
    seq![
        plain("ipak/scripts/build.sh"@, "templates/"@ + dir + "/ipak/scripts/build.sh"@),
        plain("ipak/scripts/install.sh"@, "templates/"@ + dir + "/ipak/scripts/install.sh"@),
        plain("ipak/scripts/remove.sh"@, "templates/"@ + dir + "/ipak/scripts/remove.sh"@),
        plain("ipak/scripts/purge.sh"@, "templates/"@ + dir + "/ipak/scripts/purge.sh"@),
    ]
}

/// The README of the scripts directory.
pub open spec fn readme_file() -> TemplateFileView {
    plain("ipak/scripts/README.md"@, "templates/script-README.md"@)
}

/// The ignore file of the template directory `dir`.
pub open spec fn ignore_file(dir: Seq<char>) -> TemplateFileView {
    plain("ipak/project-ignore.yaml"@, "templates/"@ + dir + "/ipak/project-ignore.yaml"@)
}

/// The files that the template `t` writes for the project named `name`.
pub open spec fn template_files(t: ProjectTemplateType, name: Seq<char>) -> Seq<TemplateFileView> {
    match t {
        ProjectTemplateType::Default => script_files("default"@).push(readme_file()),
        ProjectTemplateType::Rust => script_files("rust"@).push(ignore_file("rust"@)).push(readme_file()),
        ProjectTemplateType::Python => script_files("python"@).push(readme_file()).push(
            plain(name + "/__main__.py"@, "templates/python/src/__main__.py"@),
        ).push(plain(name + "/__init__.py"@, "templates/python/src/__init__.py"@)).push(
            TemplateFileView {
                path: "pyproject.toml"@,
                source: "templates/python/pyproject.toml"@,
                name_placeholder: Some("project-name"@),
            },
        ).push(ignore_file("python"@)),
        ProjectTemplateType::Dotnet => script_files("dotnet"@).push(ignore_file("dotnet"@)).push(readme_file()),
        ProjectTemplateType::CLang => script_files("clang"@).push(ignore_file("clang"@)).push(readme_file()).push(
            plain("src/main.cpp"@, "templates/clang/src/main.cpp"@),
        ).push(
            TemplateFileView {
                path: "CMakeLists.txt"@,
                source: "templates/clang/CMakeLists.txt"@,
                name_placeholder: Some("{name}"@),
            },
        ),
    }
}

fn push_file(files: &mut Vec<TemplateFile>, path: &str, source: &str, placeholder: Option<&str>)
    ensures
        final(files).deep_view() == old(files).deep_view().push(
            TemplateFileView {
                path: path@,
                source: source@,
                name_placeholder: match placeholder {
                    Some(p) => Some(p@),
                    None => None,
                },
            },
        ),
{
    let ghost before = files.deep_view();
    let name_placeholder = match placeholder {
        Some(p) => Some(string_of(p)),
        None => None,
    };
    files.push(TemplateFile { path: string_of(path), source: string_of(source), name_placeholder });
    assert(files.deep_view() =~= before.push(
        TemplateFileView {
            path: path@,
            source: source@,
            name_placeholder: match placeholder {
                Some(p) => Some(p@),
                None => None,
            },
        },
    ));
}

pub(crate) fn push_scripts(files: &mut Vec<TemplateFile>, dir: &str)
    ensures
        final(files).deep_view() == old(files).deep_view() + script_files(dir@),
{
    let ghost before = files.deep_view();
    let mut p = concat("templates/", dir);
    p.append("/ipak/scripts/build.sh");
    push_file(files, "ipak/scripts/build.sh", p.as_str(), None);
    let mut p = concat("templates/", dir);
    p.append("/ipak/scripts/install.sh");
    push_file(files, "ipak/scripts/install.sh", p.as_str(), None);
    let mut p = concat("templates/", dir);
    p.append("/ipak/scripts/remove.sh");
    push_file(files, "ipak/scripts/remove.sh", p.as_str(), None);
    let mut p = concat("templates/", dir);
    p.append("/ipak/scripts/purge.sh");
    push_file(files, "ipak/scripts/purge.sh", p.as_str(), None);
    assert(files.deep_view() =~= before + script_files(dir@));
}

pub(crate) fn push_ignore(files: &mut Vec<TemplateFile>, dir: &str)
    ensures
        final(files).deep_view() == old(files).deep_view().push(ignore_file(dir@)),
{
    let mut p = concat("templates/", dir);
    p.append("/ipak/project-ignore.yaml");
    push_file(files, "ipak/project-ignore.yaml", p.as_str(), None);
}

pub(crate) fn push_readme(files: &mut Vec<TemplateFile>)
    ensures
        final(files).deep_view() == old(files).deep_view().push(readme_file()),
{
    push_file(files, "ipak/scripts/README.md", "templates/script-README.md", None);
}

/// The files of the template `t` for the project named `name`.
pub fn template_file_list(t: ProjectTemplateType, name: &str) -> (r: Vec<TemplateFile>)
    ensures
        r.deep_view() == template_files(t, name@),
{
    let mut files: Vec<TemplateFile> = Vec::new();
    let ghost e = files.deep_view();
    match t {
        ProjectTemplateType::Default => {
            push_scripts(&mut files, "default");
            push_readme(&mut files);
        },
        ProjectTemplateType::Rust => {
            push_scripts(&mut files, "rust");
            push_ignore(&mut files, "rust");
            push_readme(&mut files);
        },
        ProjectTemplateType::Python => {
            push_scripts(&mut files, "python");
            push_readme(&mut files);
            let main = concat(name, "/__main__.py");
            push_file(&mut files, main.as_str(), "templates/python/src/__main__.py", None);
            let init = concat(name, "/__init__.py");
            push_file(&mut files, init.as_str(), "templates/python/src/__init__.py", None);
            push_file(&mut files, "pyproject.toml", "templates/python/pyproject.toml", Some("project-name"));
            push_ignore(&mut files, "python");
        },
        ProjectTemplateType::Dotnet => {
            push_scripts(&mut files, "dotnet");
            push_ignore(&mut files, "dotnet");
            push_readme(&mut files);
        },
        ProjectTemplateType::CLang => {
            push_scripts(&mut files, "clang");
            push_ignore(&mut files, "clang");
            push_readme(&mut files);
            push_file(&mut files, "src/main.cpp", "templates/clang/src/main.cpp", None);
            push_file(&mut files, "CMakeLists.txt", "templates/clang/CMakeLists.txt", Some("{name}"));
        },
    }
    assert(files.deep_view() =~= template_files(t, name@));
    files
}

/// The metadata of a new project: the default package details with the
/// project's name and author.
pub fn project_data(params: &ProjectParams) -> (r: PackageData)
    ensures
        r.about.package.name@ == params.project_name@,
        r.about.author.deep_view() == params.author.deep_view(),
        r.about.package.version@ == "1.0.0"@,
        r.about.package.description@.len() == 0,
        r.architecture@.len() == 0,
        r.mode == crate::pkg::Mode::Any,
        r.relation.is_empty_spec(),
{
    let mut data = PackageData::with_author(params.author.clone());
    data.about.package.name = params.project_name.clone();
    data
}

/// The metadata that the template `t` leaves for the metadata `p`: version
/// `0.1.0` for `Rust`, the needed command `dotnet` or `cmake` added for
/// `Dotnet` and `CLang`, and `p` itself otherwise.
pub open spec fn plan_data(t: ProjectTemplateType, p: PackageView) -> PackageView {
    match t {
        ProjectTemplateType::Rust => PackageView {
            about: AboutView { package: PackageAboutView { version: "0.1.0"@, ..p.about.package }, ..p.about },
            ..p
        },
        ProjectTemplateType::Dotnet => PackageView {
            relation: RelationView { depend_cmds: p.relation.depend_cmds.push("dotnet"@), ..p.relation },
            ..p
        },
        ProjectTemplateType::CLang => PackageView {
            relation: RelationView { depend_cmds: p.relation.depend_cmds.push("cmake"@), ..p.relation },
            ..p
        },
        _ => p,
    }
}

/// The command that the template `t` needs on the system, if any.
pub open spec fn plan_required_cmd(t: ProjectTemplateType) -> Option<Seq<char>> {
    match t {
        ProjectTemplateType::Default => None,
        ProjectTemplateType::Rust => Some("cargo"@),
        ProjectTemplateType::Python => Some("python3"@),
        ProjectTemplateType::Dotnet => Some("dotnet"@),
        ProjectTemplateType::CLang => Some("cmake"@),
    }
}

/// The command (program and arguments) that the template `t` runs first, if any.
pub open spec fn plan_init_command(t: ProjectTemplateType) -> Option<(Seq<char>, Seq<Seq<char>>)> {
    match t {
        ProjectTemplateType::Rust => Some(("cargo"@, seq!["init"@])),
        ProjectTemplateType::Python => Some(("python3"@, seq!["-m"@, "venv"@, "venv"@])),
        ProjectTemplateType::Dotnet => Some(("dotnet"@, seq!["new"@, "console"@, "--output=./"@])),
        _ => None,
    }
}

/// The view of an optional text.
pub open spec fn opt_text(o: Option<String>) -> Option<Seq<char>> {
    match o {
        Some(c) => Some(c@),
        None => None,
    }
}

/// The view of an optional command.
pub open spec fn opt_command(o: Option<(String, Vec<String>)>) -> Option<(Seq<char>, Seq<Seq<char>>)> {
    match o {
        Some((p, a)) => Some((p@, a.deep_view())),
        None => None,
    }
}

/// Whether `r` is the plan of the template `t` for the metadata `p`.
pub open spec fn is_plan(r: TemplatePlan, t: ProjectTemplateType, p: PackageView) -> bool {
    &&& r.pkg_data.deep_view() == plan_data(t, p)
    &&& opt_text(r.required_cmd) == plan_required_cmd(t)
    &&& opt_command(r.init_command) == plan_init_command(t)
    &&& r.files.deep_view() == template_files(t, p.about.package.name)
}

/// The template `Default`: its scripts and their README; the metadata stays.
pub fn default(pkg_data: PackageData) -> (r: TemplatePlan)
    ensures
        is_plan(r, ProjectTemplateType::Default, pkg_data.deep_view()),
{
    let files = template_file_list(ProjectTemplateType::Default, pkg_data.about.package.name.as_str());
    TemplatePlan { pkg_data, required_cmd: None, init_command: None, files }
}

/// The template `Rust`: needs `cargo`, runs `cargo init`, writes its
/// scripts; the project starts at version `0.1.0`, all else stays.
pub fn rust(pkg_data: PackageData) -> (r: TemplatePlan)
    ensures
        is_plan(r, ProjectTemplateType::Rust, pkg_data.deep_view()),
{
    let ghost before = pkg_data.deep_view();
    let mut pkg_data = pkg_data;
    proof {
        reveal_strlit("0.1.0");
        crate::version::lemma_single_leading_digit("0.1.0"@);
    }
    pkg_data.about.package.version = match Version::from_str("0.1.0") {
        Ok(v) => v,
        Err(_) => {
            assert(false);
            Version::default()
        },
    };
    assert(pkg_data.deep_view() == plan_data(ProjectTemplateType::Rust, before));
    let files = template_file_list(ProjectTemplateType::Rust, pkg_data.about.package.name.as_str());
    let mut args: Vec<String> = Vec::new();
    args.push(string_of("init"));
    assert(args.deep_view() =~= seq!["init"@]);
    TemplatePlan {
        pkg_data,
        required_cmd: Some(string_of("cargo")),
        init_command: Some((string_of("cargo"), args)),
        files,
    }
}

/// The template `Python`: needs `python3`, makes a virtual environment with
/// `python3 -m venv venv`, writes its scripts and a package named after the
/// project; the metadata stays.
pub fn python(pkg_data: PackageData) -> (r: TemplatePlan)
    ensures
        is_plan(r, ProjectTemplateType::Python, pkg_data.deep_view()),
{
    let files = template_file_list(ProjectTemplateType::Python, pkg_data.about.package.name.as_str());
    let mut args: Vec<String> = Vec::new();
    args.push(string_of("-m"));
    args.push(string_of("venv"));
    args.push(string_of("venv"));
    assert(args.deep_view() =~= seq!["-m"@, "venv"@, "venv"@]);
    TemplatePlan {
        pkg_data,
        required_cmd: Some(string_of("python3")),
        init_command: Some((string_of("python3"), args)),
        files,
    }
}

/// The template `Dotnet`: needs `dotnet`, records it as a needed command
/// (all else stays), runs `dotnet new console --output=./`, writes its scripts.
pub fn dotnet(pkg_data: PackageData) -> (r: TemplatePlan)
    ensures
        is_plan(r, ProjectTemplateType::Dotnet, pkg_data.deep_view()),
{
    let ghost p0 = pkg_data.deep_view();
    let mut pkg_data = pkg_data;
    let ghost before = pkg_data.relation.depend_cmds.deep_view();
    pkg_data.relation.depend_cmds.push(string_of("dotnet"));
    assert(pkg_data.relation.depend_cmds.deep_view() =~= before.push("dotnet"@));
    assert(pkg_data.deep_view() == plan_data(ProjectTemplateType::Dotnet, p0));
    let files = template_file_list(ProjectTemplateType::Dotnet, pkg_data.about.package.name.as_str());
    let mut args: Vec<String> = Vec::new();
    args.push(string_of("new"));
    args.push(string_of("console"));
    args.push(string_of("--output=./"));
    assert(args.deep_view() =~= seq!["new"@, "console"@, "--output=./"@]);
    TemplatePlan {
        pkg_data,
        required_cmd: Some(string_of("dotnet")),
        init_command: Some((string_of("dotnet"), args)),
        files,
    }
}

/// The template `CLang`: needs `cmake`, records it as a needed command (all
/// else stays), writes its scripts, a `main.cpp` and a `CMakeLists.txt`
/// naming the project.
pub fn clang(pkg_data: PackageData) -> (r: TemplatePlan)
    ensures
        is_plan(r, ProjectTemplateType::CLang, pkg_data.deep_view()),
{
    let ghost p0 = pkg_data.deep_view();
    let mut pkg_data = pkg_data;
    let ghost before = pkg_data.relation.depend_cmds.deep_view();
    pkg_data.relation.depend_cmds.push(string_of("cmake"));
    assert(pkg_data.relation.depend_cmds.deep_view() =~= before.push("cmake"@));
    assert(pkg_data.deep_view() == plan_data(ProjectTemplateType::CLang, p0));
    let files = template_file_list(ProjectTemplateType::CLang, pkg_data.about.package.name.as_str());
    TemplatePlan { pkg_data, required_cmd: Some(string_of("cmake")), init_command: None, files }
}

/// The plan of the template `t` for the metadata `pkg_data`: the metadata it
/// leaves, the command it needs, the command it runs first and its files.
pub fn plan(t: ProjectTemplateType, pkg_data: PackageData) -> (r: TemplatePlan)
    ensures
        is_plan(r, t, pkg_data.deep_view()),
{
    match t {
        ProjectTemplateType::Default => default(pkg_data),
        ProjectTemplateType::Rust => rust(pkg_data),
        ProjectTemplateType::Python => python(pkg_data),
        ProjectTemplateType::Dotnet => dotnet(pkg_data),
        ProjectTemplateType::CLang => clang(pkg_data),
    }
}

} // verus!
