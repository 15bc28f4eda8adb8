//! Projects: the scope and shell their scripts run in, the options of the
//! project commands, and the shell commands that run a project's scripts.
use crate::color::{reset_seq, Colorize, StyleModifier};
use crate::pkg::AuthorAboutData;
use crate::text::{ascii_lower, concat, str_eq, string_of, to_ascii_lowercase};
use crate::version::Version;
use vstd::prelude::*;

verus! {

/// Where a command acts: for the current user or for the whole system.
#[derive(Debug, Clone, Copy, PartialEq, Eq, Structural)]
pub enum ExecMode {
    /// For the current user.
    Local,
    /// For the whole system.
    Global,
}

/// The scope that the flags `--local` and `--global` choose: the one flag
/// that is given alone; else the system scope for the superuser and the
/// user scope for anyone else.
pub open spec fn mode_of_flags(local: bool, global: bool, superuser: bool) -> ExecMode {
    if local && !global {
        ExecMode::Local
    } else if global && !local {
        ExecMode::Global
    } else if superuser {
        ExecMode::Global
    } else {
        ExecMode::Local
    }
}

impl ExecMode {
    /// The scope of the flags `local` and `global` for a user who is the
    /// superuser or not.
    pub fn from_flags(local: bool, global: bool, superuser: bool) -> (r: ExecMode)
        ensures
            r == mode_of_flags(local, global, superuser),
    {
        if local && !global {
            ExecMode::Local
        } else if global && !local {
            ExecMode::Global
        } else {
            ExecMode::from_choice(None, superuser)
        }
    }

    /// The scope of a choice: `Some(true)` for the user, `Some(false)` for the
    /// system, `None` for the default of a user who is the superuser or not.
    pub fn from_choice(is_local: Option<bool>, superuser: bool) -> (r: ExecMode)
        ensures
            r == match is_local {
                Some(true) => ExecMode::Local,
                Some(false) => ExecMode::Global,
                None => if superuser {
                    ExecMode::Global
                } else {
                    ExecMode::Local
                },
            },
    {
        match is_local {
            Some(l) => if l {
                ExecMode::Local
            } else {
                ExecMode::Global
            },
            None => ExecMode::default_for(superuser),
        }
    }

    /// The default scope: the system for the superuser, else the user.
    pub fn default_for(superuser: bool) -> (r: ExecMode)
        ensures
            r == (if superuser {
                ExecMode::Global
            } else {
                ExecMode::Local
            }),
    {
        if superuser {
            ExecMode::Global
        } else {
            ExecMode::Local
        }
    }

    /// `local` or `global`.
    pub fn to_string(&self) -> (r: String)
        ensures
            r@ == exec_mode_text(*self),
    {
        match self {
            ExecMode::Local => string_of("local"),
            ExecMode::Global => string_of("global"),
        }
    }
}

/// The text of a scope.
pub open spec fn exec_mode_text(m: ExecMode) -> Seq<char> {
    match m {
        ExecMode::Local => "local"@,
        ExecMode::Global => "global"@,
    }
}

/// The shell that runs a project's scripts.
#[derive(Debug, Clone, Copy, PartialEq, Eq, Structural)]
pub enum ExecShell {
    /// Restricted bash.
    RBash,
    /// Bash.
    Bash,
    /// Zsh.
    Zsh,
    /// Csh.
    Csh,
}

impl Default for ExecShell {
    /// Bash.
    fn default() -> (r: ExecShell)
        ensures
            r == ExecShell::Bash,
    {
        ExecShell::Bash
    }
}

/// The text of a shell.
pub open spec fn exec_shell_text(s: ExecShell) -> Seq<char> {
    match s {
        ExecShell::RBash => "restricted bash"@,
        ExecShell::Bash => "bash"@,
        ExecShell::Zsh => "zsh"@,
        ExecShell::Csh => "csh"@,
    }
}

/// The shell that a name denotes, in any case: `bash`, `zsh`, `csh` or `rbash`.
pub open spec fn shell_named(name: Seq<char>) -> Option<ExecShell> {
    let l = ascii_lower(name);
    if l == "bash"@ {
        Some(ExecShell::Bash)
    } else if l == "zsh"@ {
        Some(ExecShell::Zsh)
    } else if l == "csh"@ {
        Some(ExecShell::Csh)
    } else if l == "rbash"@ {
        Some(ExecShell::RBash)
    } else {
        None
    }
}

/// An environment variable given to a command.
#[derive(Debug)]
pub struct EnvVar {
    pub name: String,
    pub value: String,
}

/// The view of an [`EnvVar`].
pub struct EnvVarView {
    pub name: Seq<char>,
    pub value: Seq<char>,
}

impl DeepView for EnvVar {
    type V = EnvVarView;

    open spec fn deep_view(&self) -> EnvVarView {
        EnvVarView { name: self.name@, value: self.value@ }
    }
}

/// A command to run: a program, its arguments and extra environment
/// variables.
#[derive(Debug)]
pub struct ShellCommand {
    pub program: String,
    pub args: Vec<String>,
    pub envs: Vec<EnvVar>,
}

/// The program and first arguments of a shell.
pub open spec fn shell_program(s: ExecShell) -> (Seq<char>, Seq<Seq<char>>) {
    match s {
        ExecShell::RBash => ("bash"@, seq!["-r"@]),
        ExecShell::Bash => ("bash"@, Seq::empty()),
        ExecShell::Zsh => ("zsh"@, Seq::empty()),
        ExecShell::Csh => ("csh"@, Seq::empty()),
    }
}

impl ExecShell {
    /// Reads a shell from its name, in any case: `bash`, `zsh`, `csh` or `rbash`.
    pub fn from_str(s: &str) -> (r: Result<ExecShell, String>)
        ensures
            match shell_named(s@) {
                Some(sh) => r == Ok::<ExecShell, String>(sh),
                None => r matches Err(e) && e@ == "Unavailable Shell: "@ + s@,
            },
    {
        let l = to_ascii_lowercase(s);
        if str_eq(l.as_str(), "bash") {
            Ok(ExecShell::Bash)
        } else if str_eq(l.as_str(), "zsh") {
            Ok(ExecShell::Zsh)
        } else if str_eq(l.as_str(), "csh") {
            Ok(ExecShell::Csh)
        } else if str_eq(l.as_str(), "rbash") {
            Ok(ExecShell::RBash)
        } else {
            Err(concat("Unavailable Shell: ", s))
        }
    }

    /// `restricted bash`, `bash`, `zsh` or `csh`.
    pub fn to_string(&self) -> (r: String)
        ensures
            r@ == exec_shell_text(*self),
    {
        match self {
            ExecShell::RBash => string_of("restricted bash"),
            ExecShell::Bash => string_of("bash"),
            ExecShell::Zsh => string_of("zsh"),
            ExecShell::Csh => string_of("csh"),
        }
    }

    /// The command that starts the shell: `bash -r` for restricted bash,
    /// else the shell's own program, with no environment variable.
    pub fn generate(&self) -> (r: ShellCommand)
        ensures
            r.program@ == shell_program(*self).0,
            r.args.deep_view() == shell_program(*self).1,
            r.envs@.len() == 0,
    {
        match self {
            ExecShell::RBash => {
                let mut args: Vec<String> = Vec::new();
                args.push(string_of("-r"));
                assert(args.deep_view() =~= seq!["-r"@]);
                ShellCommand { program: string_of("bash"), args, envs: Vec::new() }
            },
            ExecShell::Bash => {
                let r = ShellCommand { program: string_of("bash"), args: Vec::new(), envs: Vec::new() };
                assert(r.args.deep_view() =~= Seq::<Seq<char>>::empty());
                r
            },
            ExecShell::Zsh => {
                let r = ShellCommand { program: string_of("zsh"), args: Vec::new(), envs: Vec::new() };
                assert(r.args.deep_view() =~= Seq::<Seq<char>>::empty());
                r
            },
            ExecShell::Csh => {
                let r = ShellCommand { program: string_of("csh"), args: Vec::new(), envs: Vec::new() };
                assert(r.args.deep_view() =~= Seq::<Seq<char>>::empty());
                r
            },
        }
    }
}

impl ShellCommand {
    /// Adds the argument `arg`.
    pub fn arg(&mut self, arg: &str)
        ensures
            final(self).program@ == old(self).program@,
            final(self).args.deep_view() == old(self).args.deep_view().push(arg@),
            final(self).envs.deep_view() == old(self).envs.deep_view(),
    {
        let ghost before = self.args.deep_view();
        self.args.push(string_of(arg));
        assert(self.args.deep_view() =~= before.push(arg@));
    }

    /// Adds the environment variable `name` with the value `value`.
    pub fn env(&mut self, name: &str, value: &str)
        ensures
            final(self).program@ == old(self).program@,
            final(self).args.deep_view() == old(self).args.deep_view(),
            final(self).envs.deep_view() == old(self).envs.deep_view().push(
                EnvVarView { name: name@, value: value@ },
            ),
    {
        let ghost before = self.envs.deep_view();
        self.envs.push(EnvVar { name: string_of(name), value: string_of(value) });
        assert(self.envs.deep_view() =~= before.push(EnvVarView { name: name@, value: value@ }));
    }
}

/// How a project is built.
#[derive(Debug, Clone, Copy, PartialEq, Eq, Structural)]
pub enum BuildMode {
    /// An optimised build.
    Release,
    /// A build for debugging.
    Debug,
}

impl Default for BuildMode {
    /// A build for debugging.
    fn default() -> (r: BuildMode)
        ensures
            r == BuildMode::Debug,
    {
        BuildMode::Debug
    }
}

/// The text of a build mode.
pub open spec fn build_mode_text(m: BuildMode) -> Seq<char> {
    match m {
        BuildMode::Release => "release"@,
        BuildMode::Debug => "debug"@,
    }
}

impl BuildMode {
    /// `release` or `debug`.
    pub fn to_string(&self) -> (r: String)
        ensures
            r@ == build_mode_text(*self),
    {
        match self {
            BuildMode::Release => string_of("release"),
            BuildMode::Debug => string_of("debug"),
        }
    }
}

/// The label of one option line: the label in green and bold, then `:`.
pub open spec fn option_label(label: Seq<char>) -> Seq<char> {
    "\x1b[1m"@ + ("\x1b[32m"@ + label + reset_seq()) + reset_seq()
}

/// The title line of a block of options: the title in cyan and bold, then `:`.
pub open spec fn options_title(title: Seq<char>) -> Seq<char> {
    "\x1b[1m"@ + ("\x1b[36m"@ + title + reset_seq()) + reset_seq() + ":\n"@
}

/// The text of a block of two options.
pub open spec fn options_text(title: Seq<char>, l1: Seq<char>, v1: Seq<char>, l2: Seq<char>, v2: Seq<char>) -> Seq<
    char,
> {
    options_title(title) + "  "@ + option_label(l1) + ": "@ + v1 + "\n"@ + "  "@ + option_label(l2) + ": "@ + v2
        + "\n"@
}

/// Appends the title line of a block of options.
fn push_options_title(out: &mut String, title: &str)
    ensures
        final(out)@ == old(out)@ + options_title(title@),
{
    let t = title.cyan();
    let b = t.bold();
    out.append(b.as_str());
    out.append(":\n");
}

/// Appends one option line.
fn push_option_line(out: &mut String, label: &str, value: &str)
    ensures
        final(out)@ == old(out)@ + "  "@ + option_label(label@) + ": "@ + value@ + "\n"@,
{
    out.append("  ");
    let g = label.green();
    let b = g.bold();
    out.append(b.as_str());
    out.append(": ");
    out.append(value);
    out.append("\n");
}

/// The text of a block of two options.
fn options_string(title: &str, l1: &str, v1: &str, l2: &str, v2: &str) -> (r: String)
    ensures
        r@ == options_text(title@, l1@, v1@, l2@, v2@),
{
    let mut out = String::new();
    push_options_title(&mut out, title);
    push_option_line(&mut out, l1, v1);
    push_option_line(&mut out, l2, v2);
    assert(out@ =~= options_text(title@, l1@, v1@, l2@, v2@));
    out
}

/// The options of `project build`.
#[derive(Debug)]
pub struct BuildOptions {
    pub build_mode: BuildMode,
    pub build_shell: ExecShell,
}

impl Default for BuildOptions {
    /// A debug build in bash.
    fn default() -> (r: BuildOptions)
        ensures
            r.build_mode == BuildMode::Debug,
            r.build_shell == ExecShell::Bash,
    {
        BuildOptions { build_mode: BuildMode::Debug, build_shell: ExecShell::Bash }
    }
}

impl BuildOptions {
    /// The options as a titled block: build mode, then build shell.
    pub fn to_string(&self) -> (r: String)
        ensures
            r@ == options_text(
                "Build Options"@,
                "build-mode"@,
                build_mode_text(self.build_mode),
                "build-shell"@,
                exec_shell_text(self.build_shell),
            ),
    {
        let m = self.build_mode.to_string();
        let s = self.build_shell.to_string();
        options_string("Build Options", "build-mode", m.as_str(), "build-shell", s.as_str())
    }
}

/// The options of `project install`.
#[derive(Debug)]
pub struct InstallOptions {
    pub install_shell: ExecShell,
    pub install_mode: ExecMode,
}

impl InstallOptions {
    /// The options as a titled block: install shell, then install mode.
    pub fn to_string(&self) -> (r: String)
        ensures
            r@ == options_text(
                "Install Options"@,
                "install-shell"@,
                exec_shell_text(self.install_shell),
                "install-mode"@,
                exec_mode_text(self.install_mode),
            ),
    {
        let s = self.install_shell.to_string();
        let m = self.install_mode.to_string();
        options_string("Install Options", "install-shell", s.as_str(), "install-mode", m.as_str())
    }
}

/// The options of `project remove`.
#[derive(Debug)]
pub struct RemoveOptions {
    pub remove_shell: ExecShell,
    pub remove_mode: ExecMode,
}

impl RemoveOptions {
    /// The options as a titled block: remove shell, then remove mode.
    pub fn to_string(&self) -> (r: String)
        ensures
            r@ == options_text(
                "Remove Options"@,
                "remove-shell"@,
                exec_shell_text(self.remove_shell),
                "remove-mode"@,
                exec_mode_text(self.remove_mode),
            ),
    {
        let s = self.remove_shell.to_string();
        let m = self.remove_mode.to_string();
        options_string("Remove Options", "remove-shell", s.as_str(), "remove-mode", m.as_str())
    }
}

/// The options of `project purge`.
#[derive(Debug)]
pub struct PurgeOptions {
    pub purge_shell: ExecShell,
    pub purge_mode: ExecMode,
}

impl PurgeOptions {
    /// The options as a titled block: purge shell, then purge mode.
    pub fn to_string(&self) -> (r: String)
        ensures
            r@ == options_text(
                "Purge Options"@,
                "purge-shell"@,
                exec_shell_text(self.purge_shell),
                "purge-mode"@,
                exec_mode_text(self.purge_mode),
            ),
    {
        let s = self.purge_shell.to_string();
        let m = self.purge_mode.to_string();
        options_string("Purge Options", "purge-shell", s.as_str(), "purge-mode", m.as_str())
    }
}

/// The options of `project configure`.
#[derive(Debug, Clone, Copy)]
pub struct ConfigureOptions {
    pub configure_mode: ExecMode,
    pub configure_shell: ExecShell,
}

/// What a project is packaged for.
#[derive(Debug, Clone, Copy, PartialEq, Eq, Structural)]
pub enum PackageTarget {
    /// Everything needed to build from source.
    SourceBuild,
    /// The usual package.
    Normal,
    /// The smallest package.
    Min,
}

impl Default for PackageTarget {
    /// The usual package.
    fn default() -> (r: PackageTarget)
        ensures
            r == PackageTarget::Normal,
    {
        PackageTarget::Normal
    }
}

/// The text of a package target.
pub open spec fn package_target_text(t: PackageTarget) -> Seq<char> {
    match t {
        PackageTarget::SourceBuild => "source-build"@,
        PackageTarget::Normal => "normal"@,
        PackageTarget::Min => "minimal"@,
    }
}

/// The target that a name denotes, in any case.
pub open spec fn target_named(name: Seq<char>) -> Option<PackageTarget> {
    let l = ascii_lower(name);
    if l == "src"@ || l == "source"@ || l == "source-build"@ {
        Some(PackageTarget::SourceBuild)
    } else if l == "normal"@ || l == "default"@ {
        Some(PackageTarget::Normal)
    } else if l == "min"@ || l == "minimal"@ {
        Some(PackageTarget::Min)
    } else {
        None
    }
}

impl PackageTarget {
    /// Reads a target from its name, in any case: `src`, `source` or
    /// `source-build`; `normal` or `default`; `min` or `minimal`.
    pub fn from_str(s: &str) -> (r: Result<PackageTarget, String>)
        ensures
            match target_named(s@) {
                Some(t) => r == Ok::<PackageTarget, String>(t),
                None => r matches Err(e) && e@ == "Invalid Package Target: "@ + s@,
            },
    {
        let l = to_ascii_lowercase(s);
        let t = l.as_str();
        if str_eq(t, "src") || str_eq(t, "source") || str_eq(t, "source-build") {
            Ok(PackageTarget::SourceBuild)
        } else if str_eq(t, "normal") || str_eq(t, "default") {
            Ok(PackageTarget::Normal)
        } else if str_eq(t, "min") || str_eq(t, "minimal") {
            Ok(PackageTarget::Min)
        } else {
            Err(concat("Invalid Package Target: ", s))
        }
    }

    /// `source-build`, `normal` or `minimal`.
    pub fn to_string(&self) -> (r: String)
        ensures
            r@ == package_target_text(*self),
    {
        match self {
            PackageTarget::SourceBuild => string_of("source-build"),
            PackageTarget::Normal => string_of("normal"),
            PackageTarget::Min => string_of("minimal"),
        }
    }
}

/// The options of `project package`.
#[derive(Debug)]
pub struct PackageOptions {
    pub target: PackageTarget,
}

impl PackageOptions {
    /// The options as a titled block: the target.
    pub fn to_string(&self) -> (r: String)
        ensures
            r@ == options_title("Package Options"@) + "  "@ + option_label("target"@) + ": "@ + package_target_text(
                self.target,
            ) + "\n"@,
    {
        let mut out = String::new();
        push_options_title(&mut out, "Package Options");
        let t = self.target.to_string();
        push_option_line(&mut out, "target", t.as_str());
        out
    }
}

/// The patterns left out of a package for the target `target`: those of the
/// source build; for the usual package also those listed for it; for the
/// smallest package those of the usual package and those listed for it.
pub open spec fn ignore_patterns(
    target: PackageTarget,
    source_build: Seq<Seq<char>>,
    normal: Seq<Seq<char>>,
    min: Seq<Seq<char>>,
) -> Seq<Seq<char>> {
    match target {
        PackageTarget::SourceBuild => source_build,
        PackageTarget::Normal => source_build + normal,
        PackageTarget::Min => source_build + normal + min,
    }
}

/// Appends copies of `more` to `list`.
fn extend_strings(list: &mut Vec<String>, more: &Vec<String>)
    ensures
        final(list).deep_view() == old(list).deep_view() + more.deep_view(),
{
    let ghost start = list.deep_view();
    let mut i: usize = 0;
    while i < more.len()
        invariant
            i <= more@.len(),
            list.deep_view() == start + more.deep_view().take(i as int),
        decreases more.len() - i,
    {
        let ghost before = list.deep_view();
        list.push(more[i].clone());
        assert(list.deep_view() =~= before.push(more@[i as int]@));
        assert(more.deep_view().take(i + 1) =~= more.deep_view().take(i as int).push(more@[i as int]@));
        i = i + 1;
    }
    assert(more.deep_view().take(more@.len() as int) =~= more.deep_view());
}

/// The patterns left out of a package for `target`, from the lists of the
/// project's ignore file.
pub fn ignore_list(target: PackageTarget, source_build: &Vec<String>, normal: &Vec<String>, min: &Vec<String>) -> (r: Vec<
    String,
>)
    ensures
        r.deep_view() == ignore_patterns(target, source_build.deep_view(), normal.deep_view(), min.deep_view()),
{
    let mut list: Vec<String> = Vec::new();
    extend_strings(&mut list, source_build);
    match target {
        PackageTarget::SourceBuild => {},
        PackageTarget::Normal => {
            extend_strings(&mut list, normal);
        },
        PackageTarget::Min => {
            extend_strings(&mut list, normal);
            extend_strings(&mut list, min);
        },
    }
    assert(list.deep_view() =~= ignore_patterns(
        target,
        source_build.deep_view(),
        normal.deep_view(),
        min.deep_view(),
    ));
    list
}

/// Whether the path `rel`, relative to the project directory, lies in the
/// directory `ipak/package` where packages are built, or is it.
pub open spec fn in_package_output(rel: Seq<char>) -> bool {
    rel == "ipak/package"@ || (rel.len() > 13 && rel.take(13) == "ipak/package/"@)
}

/// Whether the walk that gathers a package's files skips the directory
/// `rel`: the output directory of packages is never copied into one.
pub fn skips_package_output(rel: &str) -> (r: bool)
    ensures
        r == in_package_output(rel@),
{
    let cs = crate::text::chars_of(rel);
    let prefix = crate::text::chars_of("ipak/package/");
    proof {
        reveal_strlit("ipak/package/");
        reveal_strlit("ipak/package");
    }
    assert(prefix@.len() == 13);
    if str_eq(rel, "ipak/package") {
        return true;
    }
    if cs.len() <= 13 {
        return false;
    }
    let mut i: usize = 0;
    while i < 13
        invariant
            cs@ == rel@,
            prefix@ == "ipak/package/"@,
            prefix@.len() == 13,
            rel@ != "ipak/package"@,
            13 < cs.len(),
            i <= 13,
            forall|k: int| 0 <= k < i ==> cs@[k] == prefix@[k],
        decreases 13 - i,
    {
        if cs[i] != prefix[i] {
            assert(rel@.take(13)[i as int] != "ipak/package/"@[i as int]);
            return false;
        }
        i = i + 1;
    }
    assert(rel@.take(13) =~= "ipak/package/"@);
    true
}

/// Whether the path `rel`, relative to the project directory, lies below the
/// directory `ipak/package`: the walk that gathers a package's files never
/// reaches it.
pub open spec fn below_package_output(rel: Seq<char>) -> bool {
    rel.len() > 13 && rel.take(13) == "ipak/package/"@
}

/// What the gitignore matcher of the `ignore` crate, built under the
/// directory `root` from the lines `patterns`, says of the path `rel`
/// (a directory when `is_dir`): whether it is ignored.
pub uninterp spec fn gitignore_ignores(root: Seq<char>, patterns: Seq<Seq<char>>, rel: Seq<char>, is_dir: bool) -> bool;

/// What building the gitignore matcher under `root` from the lines
/// `patterns` gives: `None` when it builds, else the message of its error.
pub uninterp spec fn gitignore_build_error(root: Seq<char>, patterns: Seq<Seq<char>>) -> Option<Seq<char>>;

/// Whether the gitignore matcher under `root` from `patterns` builds.
pub open spec fn gitignore_builds(root: Seq<char>, patterns: Seq<Seq<char>>) -> bool {
    gitignore_build_error(root, patterns) is None
}

/// Whether no line of `lines` starts with `!` (a line that re-includes paths).
pub open spec fn no_whitelist(lines: Seq<Seq<char>>) -> bool {
    forall|i: int| 0 <= i < lines.len() ==> !(#[trigger] lines[i].len() > 0 && lines[i][0] == '!')
}

/// Whether the gitignore matcher built under `root` from `patterns` ignores
/// `rel`; the message of the error when the matcher cannot be built.
///
/// Calls `ignore::gitignore::GitignoreBuilder::new`, `add_line` for each
/// pattern (a line that is no valid pattern is left out), `build` and
/// `Gitignore::matched`; none of them touches the disk, so the outcome is a
/// function of the arguments, which the contract names. It also states what
/// the source of `matched` shows: the last glob that matches decides, so a
/// path that is ignored stays ignored when lines that do not start with `!`
/// are added and the matcher still builds.
#[verifier::external_body]
fn ignore_matches(root: &str, patterns: &Vec<String>, rel: &str, is_dir: bool) -> (r: Result<bool, String>)
    ensures
        match r {
            Ok(b) => gitignore_builds(root@, patterns.deep_view()) && b == gitignore_ignores(
                root@,
                patterns.deep_view(),
                rel@,
                is_dir,
            ),
            Err(e) => gitignore_build_error(root@, patterns.deep_view()) == Some(e@),
        },
        (r matches Ok(true)) ==> forall|more: Seq<Seq<char>>|
            no_whitelist(more) && gitignore_builds(root@, patterns.deep_view() + more) ==> #[trigger] gitignore_ignores(
                root@,
                patterns.deep_view() + more,
                rel@,
                is_dir,
            ),
{
    let mut builder = ignore::gitignore::GitignoreBuilder::new(root);
    for pattern in patterns.iter() {
        let _ = builder.add_line(None, pattern.as_str());
    }
    match builder.build() {
        Ok(gitignore) => Ok(gitignore.matched(rel, is_dir).is_ignore()),
        Err(e) => Err(e.to_string()),
    }
}

/// How many ignore lists a target uses: `SourceBuild` one, `Normal` two, `Min` three.
pub open spec fn target_rank(t: PackageTarget) -> int {
    match t {
        PackageTarget::SourceBuild => 0,
        PackageTarget::Normal => 1,
        PackageTarget::Min => 2,
    }
}

/// What `packs_file` answers for a file `rel` that is not below
/// `ipak/package`: whether it goes into the package, or the error.
pub open spec fn pack_answer(root: Seq<char>, patterns: Seq<Seq<char>>, rel: Seq<char>) -> Result<bool, Seq<char>> {
    match gitignore_build_error(root, patterns) {
        None => Ok(!gitignore_ignores(root, patterns, rel, true)),
        Some(m) => Err("Failed to build gitignore: "@ + m),
    }
}

/// Whether the file `rel` (relative to the project directory `root`) goes
/// into a package for `target`, with the ignore lists `source_build`,
/// `normal` and `min` of the project: files below `ipak/package` never do;
/// any other goes in unless the patterns of `target` ignore it, the file
/// being matched as a directory would be. When the matcher cannot be built,
/// the error is `Failed to build gitignore: ` and the matcher's message.
///
/// The packages of the targets hold nested sets of files: a file that a
/// target leaves out, every target with more ignore lists leaves out too,
/// when the `normal` and `min` lists have no line starting with `!` and its
/// matcher builds.
pub fn packs_file(
    target: PackageTarget,
    root: &str,
    source_build: &Vec<String>,
    normal: &Vec<String>,
    min: &Vec<String>,
    rel: &str,
) -> (r: Result<bool, String>)
    ensures
        below_package_output(rel@) ==> r == Ok::<bool, String>(false),
        !below_package_output(rel@) ==> match r {
            Ok(b) => pack_answer(
                root@,
                ignore_patterns(target, source_build.deep_view(), normal.deep_view(), min.deep_view()),
                rel@,
            ) == Ok::<bool, Seq<char>>(b),
            Err(e) => pack_answer(
                root@,
                ignore_patterns(target, source_build.deep_view(), normal.deep_view(), min.deep_view()),
                rel@,
            ) == Err::<bool, Seq<char>>(e@),
        },
        r == Ok::<bool, String>(false) && no_whitelist(normal.deep_view()) && no_whitelist(min.deep_view())
            ==> forall|t2: PackageTarget|
            target_rank(target) <= target_rank(t2) && #[trigger] gitignore_builds(
                root@,
                ignore_patterns(t2, source_build.deep_view(), normal.deep_view(), min.deep_view()),
            ) ==> below_package_output(rel@) || gitignore_ignores(
                root@,
                ignore_patterns(t2, source_build.deep_view(), normal.deep_view(), min.deep_view()),
                rel@,
                true,
            ),
{
    proof {
        reveal_strlit("ipak/package");
        assert("ipak/package"@.len() == 12);
    }
    if skips_package_output(rel) && !str_eq(rel, "ipak/package") {
        return Ok(false);
    }
    let patterns = ignore_list(target, source_build, normal, min);
    match ignore_matches(root, &patterns, rel, true) {
        Ok(ignored) => {
            proof {
                let sb = source_build.deep_view();
                let nm = normal.deep_view();
                let mn = min.deep_view();
                let p = patterns.deep_view();
                if ignored && no_whitelist(nm) && no_whitelist(mn) {
                    assert forall|t2: PackageTarget|
                        target_rank(target) <= target_rank(t2) && #[trigger] gitignore_builds(
                            root@,
                            ignore_patterns(t2, sb, nm, mn),
                        ) implies gitignore_ignores(root@, ignore_patterns(t2, sb, nm, mn), rel@, true) by {
                        let more = extra_lines(target, t2, nm, mn);
                        lemma_extra_lines(target, t2, sb, nm, mn);
                        assert(ignore_patterns(t2, sb, nm, mn) == p + more);
                    }
                }
            }
            Ok(!ignored)
        },
        Err(m) => {
            let e = concat("Failed to build gitignore: ", m.as_str());
            assert(e@ == "Failed to build gitignore: "@ + m@);
            Err(e)
        },
    }
}

/// The ignore lines that the target `t2` uses beyond those of `t`.
pub open spec fn extra_lines(t: PackageTarget, t2: PackageTarget, normal: Seq<Seq<char>>, min: Seq<Seq<char>>) -> Seq<
    Seq<char>,
> {
    match (t, t2) {
        (PackageTarget::SourceBuild, PackageTarget::Normal) => normal,
        (PackageTarget::SourceBuild, PackageTarget::Min) => normal + min,
        (PackageTarget::Normal, PackageTarget::Min) => min,
        _ => Seq::empty(),
    }
}

/// A target with more ignore lists uses those of a target with fewer, and
/// then lines of the `normal` and `min` lists only.
proof fn lemma_extra_lines(
    t: PackageTarget,
    t2: PackageTarget,
    sb: Seq<Seq<char>>,
    nm: Seq<Seq<char>>,
    mn: Seq<Seq<char>>,
)
    requires
        target_rank(t) <= target_rank(t2),
        no_whitelist(nm),
        no_whitelist(mn),
    ensures
        ignore_patterns(t2, sb, nm, mn) == ignore_patterns(t, sb, nm, mn) + extra_lines(t, t2, nm, mn),
        no_whitelist(extra_lines(t, t2, nm, mn)),
{
    let e = extra_lines(t, t2, nm, mn);
    assert(ignore_patterns(t2, sb, nm, mn) =~= ignore_patterns(t, sb, nm, mn) + e);
    if t == PackageTarget::SourceBuild && t2 == PackageTarget::Min {
        assert forall|i: int| 0 <= i < e.len() implies !(#[trigger] e[i].len() > 0 && e[i][0] == '!') by {
            if i < nm.len() {
                assert(e[i] == nm[i]);
            } else {
                assert(e[i] == mn[i - nm.len()]);
            }
        }
    }
}

/// The name `name-version` that a package's directory and archive carry.
pub open spec fn package_stem(name: Seq<char>, version: Seq<char>) -> Seq<char> {
    name + "-"@ + version
}

/// The directory that a package's files are gathered in, `name-version/`,
/// and its archive, `name-version.ipak`, both under `ipak/package`.
pub fn package_file_names(name: &str, version: &Version) -> (r: (String, String))
    ensures
        r.0@ == package_stem(name@, version@) + "/"@,
        r.1@ == package_stem(name@, version@) + ".ipak"@,
{
    let v = version.to_string();
    let mut stem = concat(name, "-");
    stem.append(v.as_str());
    let mut dir = stem.clone();
    dir.append("/");
    let mut archive = stem;
    archive.append(".ipak");
    (dir, archive)
}

/// The options of `project build`: a release build when `release` is set,
/// else a debug build; in `shell`, bash by default.
pub fn project_build(release: bool, shell: Option<ExecShell>) -> (r: BuildOptions)
    ensures
        r.build_mode == (if release {
            BuildMode::Release
        } else {
            BuildMode::Debug
        }),
        r.build_shell == match shell {
            Some(s) => s,
            None => ExecShell::Bash,
        },
{
    BuildOptions {
        build_mode: if release {
            BuildMode::Release
        } else {
            BuildMode::Debug
        },
        build_shell: match shell {
            Some(s) => s,
            None => ExecShell::default(),
        },
    }
}

/// The options of `project install`: for the system when `global` is set,
/// else for the user; in `shell`, bash by default.
pub fn project_install(global: bool, shell: Option<ExecShell>) -> (r: InstallOptions)
    ensures
        r.install_mode == (if global {
            ExecMode::Global
        } else {
            ExecMode::Local
        }),
        r.install_shell == match shell {
            Some(s) => s,
            None => ExecShell::Bash,
        },
{
    InstallOptions {
        install_shell: match shell {
            Some(s) => s,
            None => ExecShell::default(),
        },
        install_mode: if global {
            ExecMode::Global
        } else {
            ExecMode::Local
        },
    }
}

/// The options of `project remove` in the scope `remove_mode`; in `shell`,
/// bash by default.
pub fn project_remove(remove_mode: ExecMode, shell: Option<ExecShell>) -> (r: RemoveOptions)
    ensures
        r.remove_mode == remove_mode,
        r.remove_shell == match shell {
            Some(s) => s,
            None => ExecShell::Bash,
        },
{
    RemoveOptions {
        remove_shell: match shell {
            Some(s) => s,
            None => ExecShell::default(),
        },
        remove_mode,
    }
}

/// The options of `project purge` in the scope `purge_mode`; in `shell`,
/// bash by default.
pub fn project_purge(purge_mode: ExecMode, shell: Option<ExecShell>) -> (r: PurgeOptions)
    ensures
        r.purge_mode == purge_mode,
        r.purge_shell == match shell {
            Some(s) => s,
            None => ExecShell::Bash,
        },
{
    PurgeOptions {
        purge_shell: match shell {
            Some(s) => s,
            None => ExecShell::default(),
        },
        purge_mode,
    }
}

/// The options of `project package`: the target `target`, the usual
/// package by default.
pub fn project_package(target: Option<PackageTarget>) -> (r: PackageOptions)
    ensures
        r.target == match target {
            Some(t) => t,
            None => PackageTarget::Normal,
        },
{
    PackageOptions {
        target: match target {
            Some(t) => t,
            None => PackageTarget::default(),
        },
    }
}

/// The command that runs the project script `script` of the project `name`
/// at version `version` in `shell`, with the variable `mode_var` set to
/// `mode` (when there is one) and the arguments `extra` after `--` (when
/// there are some).
pub open spec fn script_command_spec(
    shell: ExecShell,
    script: Seq<char>,
    name: Seq<char>,
    version: Seq<char>,
    mode: Option<(Seq<char>, Seq<char>)>,
) -> (Seq<char>, Seq<Seq<char>>, Seq<EnvVarView>) {
    let base_envs = seq![
        EnvVarView { name: "IPAK_PROJECT_NAME"@, value: name },
        EnvVarView { name: "IPAK_PROJECT_VERSION"@, value: version },
    ];
    (
        shell_program(shell).0,
        shell_program(shell).1.push(script),
        match mode {
            Some((var, value)) => base_envs.push(EnvVarView { name: var, value }),
            None => base_envs,
        },
    )
}

/// Builds the command of a project script: the shell, the project's name
/// and version in the environment, the scope variable, then the script.
fn script_command(
    shell: ExecShell,
    script: &str,
    project_name: &str,
    project_version: &Version,
    mode_var: &str,
    mode: &str,
) -> (r: ShellCommand)
    ensures
        r.program@ == script_command_spec(shell, script@, project_name@, project_version@, Some((mode_var@, mode@))).0,
        r.args.deep_view() == script_command_spec(
            shell,
            script@,
            project_name@,
            project_version@,
            Some((mode_var@, mode@)),
        ).1,
        r.envs.deep_view() == script_command_spec(
            shell,
            script@,
            project_name@,
            project_version@,
            Some((mode_var@, mode@)),
        ).2,
{
    let mut cmd = shell.generate();
    cmd.env("IPAK_PROJECT_NAME", project_name);
    let v = project_version.to_string();
    cmd.env("IPAK_PROJECT_VERSION", v.as_str());
    cmd.env(mode_var, mode);
    cmd.arg(script);
    proof {
        let s = script_command_spec(shell, script@, project_name@, project_version@, Some((mode_var@, mode@)));
        assert(cmd.envs.deep_view() =~= s.2);
    }
    cmd
}

/// The command that builds the project `name` at `version` with `opts`:
/// `ipak/scripts/build.sh` in the build shell, with `IPAK_BUILD_MODE` set.
pub fn build(opts: &BuildOptions, name: &str, version: &Version) -> (r: ShellCommand)
    ensures
        ({
            let s = script_command_spec(
                opts.build_shell,
                "ipak/scripts/build.sh"@,
                name@,
                version@,
                Some(("IPAK_BUILD_MODE"@, build_mode_text(opts.build_mode))),
            );
            r.program@ == s.0 && r.args.deep_view() == s.1 && r.envs.deep_view() == s.2
        }),
{
    let mode = opts.build_mode.to_string();
    script_command(opts.build_shell, "ipak/scripts/build.sh", name, version, "IPAK_BUILD_MODE", mode.as_str())
}

/// The command that installs the project `name` at `version` with `opts`:
/// `ipak/scripts/install.sh` in the install shell, with `IPAK_INSTALL_MODE` set.
pub fn install(opts: &InstallOptions, name: &str, version: &Version) -> (r: ShellCommand)
    ensures
        ({
            let s = script_command_spec(
                opts.install_shell,
                "ipak/scripts/install.sh"@,
                name@,
                version@,
                Some(("IPAK_INSTALL_MODE"@, exec_mode_text(opts.install_mode))),
            );
            r.program@ == s.0 && r.args.deep_view() == s.1 && r.envs.deep_view() == s.2
        }),
{
    let mode = opts.install_mode.to_string();
    script_command(
        opts.install_shell,
        "ipak/scripts/install.sh",
        name,
        version,
        "IPAK_INSTALL_MODE",
        mode.as_str(),
    )
}

/// The command that removes the project `name` at `version` with `opts`:
/// `ipak/scripts/remove.sh` in the remove shell, with `IPAK_REMOVE_MODE` set.
pub fn remove(opts: &RemoveOptions, name: &str, version: &Version) -> (r: ShellCommand)
    ensures
        ({
            let s = script_command_spec(
                opts.remove_shell,
                "ipak/scripts/remove.sh"@,
                name@,
                version@,
                Some(("IPAK_REMOVE_MODE"@, exec_mode_text(opts.remove_mode))),
            );
            r.program@ == s.0 && r.args.deep_view() == s.1 && r.envs.deep_view() == s.2
        }),
{
    let mode = opts.remove_mode.to_string();
    script_command(opts.remove_shell, "ipak/scripts/remove.sh", name, version, "IPAK_REMOVE_MODE", mode.as_str())
}

/// The command that purges the project `name` at `version` with `opts`:
/// `ipak/scripts/purge.sh` in the purge shell, with `IPAK_PURGE_MODE` set.
pub fn purge(opts: &PurgeOptions, name: &str, version: &Version) -> (r: ShellCommand)
    ensures
        ({
            let s = script_command_spec(
                opts.purge_shell,
                "ipak/scripts/purge.sh"@,
                name@,
                version@,
                Some(("IPAK_PURGE_MODE"@, exec_mode_text(opts.purge_mode))),
            );
            r.program@ == s.0 && r.args.deep_view() == s.1 && r.envs.deep_view() == s.2
        }),
{
    let mode = opts.purge_mode.to_string();
    script_command(opts.purge_shell, "ipak/scripts/purge.sh", name, version, "IPAK_PURGE_MODE", mode.as_str())
}

/// The command that configures a project with `opts`: `ipak/scripts/configure.sh`
/// in the configure shell.
pub fn configure(opts: &ConfigureOptions) -> (r: ShellCommand)
    ensures
        r.program@ == shell_program(opts.configure_shell).0,
        r.args.deep_view() == shell_program(opts.configure_shell).1.push("ipak/scripts/configure.sh"@),
        r.envs.deep_view().len() == 0,
{
    let mut cmd = opts.configure_shell.generate();
    cmd.arg("ipak/scripts/configure.sh");
    cmd
}

/// The command that runs the project script named `script_name` (in lower
/// case) of the project `name` at `version` in `shell` (bash by default),
/// with the arguments `args` after `--`.
pub fn project_run(shell: Option<ExecShell>, script_name: &str, name: &str, version: &Version, args: &Vec<String>) -> (r:
    ShellCommand)
    ensures
        ({
            let sh = match shell {
                Some(s) => s,
                None => ExecShell::Bash,
            };
            let script = "ipak/scripts/"@ + ascii_lower(script_name@) + ".sh"@;
            &&& r.program@ == shell_program(sh).0
            &&& r.args.deep_view() == shell_program(sh).1.push(script).push("--"@) + args.deep_view()
            &&& r.envs.deep_view() == seq![
                EnvVarView { name: "IPAK_PROJECT_NAME"@, value: name@ },
                EnvVarView { name: "IPAK_PROJECT_VERSION"@, value: version@ },
            ]
        }),
{
    let sh = match shell {
        Some(s) => s,
        None => ExecShell::default(),
    };
    let lower = to_ascii_lowercase(script_name);
    let mut script = string_of("ipak/scripts/");
    script.append(lower.as_str());
    script.append(".sh");
    let mut cmd = sh.generate();
    cmd.env("IPAK_PROJECT_NAME", name);
    let v = version.to_string();
    cmd.env("IPAK_PROJECT_VERSION", v.as_str());
    cmd.arg(script.as_str());
    cmd.arg("--");
    let ghost start = cmd.args.deep_view();
    let mut i: usize = 0;
    while i < args.len()
        invariant
            i <= args@.len(),
            cmd.program@ == shell_program(sh).0,
            cmd.args.deep_view() == start + args.deep_view().take(i as int),
            cmd.envs.deep_view() == seq![
                EnvVarView { name: "IPAK_PROJECT_NAME"@, value: name@ },
                EnvVarView { name: "IPAK_PROJECT_VERSION"@, value: version@ },
            ],
        decreases args.len() - i,
    {
        cmd.arg(args[i].as_str());
        assert(args.deep_view().take(i + 1) =~= args.deep_view().take(i as int).push(args@[i as int]@));
        i = i + 1;
    }
    assert(args.deep_view().take(args@.len() as int) =~= args.deep_view());
    cmd
}

/// What a new project is made from: its name, template and author.
#[derive(Debug)]
pub struct ProjectParams {
    pub project_name: String,
    pub project_template: ProjectTemplateType,
    pub author: AuthorAboutData,
}

/// The template a new project starts from.
#[derive(Debug, Clone, Copy, PartialEq, Eq, Structural)]
pub enum ProjectTemplateType {
    /// Scripts only.
    Default,
    /// A Cargo project.
    Rust,
    /// A Python project with a virtual environment.
    Python,
    /// A .NET console project.
    Dotnet,
    /// A CMake project.
    CLang,
}

impl Default for ProjectTemplateType {
    /// Scripts only.
    fn default() -> (r: ProjectTemplateType)
        ensures
            r == ProjectTemplateType::Default,
    {
        ProjectTemplateType::Default
    }
}

/// The text of a template.
pub open spec fn template_text(t: ProjectTemplateType) -> Seq<char> {
    match t {
        ProjectTemplateType::Default => "default"@,
        ProjectTemplateType::Rust => "rust"@,
        ProjectTemplateType::Python => "python"@,
        ProjectTemplateType::Dotnet => "dotnet"@,
        ProjectTemplateType::CLang => "clang"@,
    }
}

/// The template that a name denotes, in any case (`cpp` for `clang` too).
pub open spec fn template_named(name: Seq<char>) -> Option<ProjectTemplateType> {
    let l = ascii_lower(name);
    if l == "default"@ {
        Some(ProjectTemplateType::Default)
    } else if l == "rust"@ {
        Some(ProjectTemplateType::Rust)
    } else if l == "python"@ {
        Some(ProjectTemplateType::Python)
    } else if l == "dotnet"@ {
        Some(ProjectTemplateType::Dotnet)
    } else if l == "clang"@ || l == "cpp"@ {
        Some(ProjectTemplateType::CLang)
    } else {
        None
    }
}

impl ProjectTemplateType {
    /// Reads a template from its name, in any case: `default`, `rust`,
    /// `python`, `dotnet`, `clang` or `cpp`.
    pub fn from_str(s: &str) -> (r: Result<ProjectTemplateType, String>)
        ensures
            match template_named(s@) {
                Some(t) => r == Ok::<ProjectTemplateType, String>(t),
                None => r matches Err(e) && e@ == "Unavailable Template: '"@ + s@ + "'"@,
            },
    {
        let l = to_ascii_lowercase(s);
        let t = l.as_str();
        if str_eq(t, "default") {
            Ok(ProjectTemplateType::Default)
        } else if str_eq(t, "rust") {
            Ok(ProjectTemplateType::Rust)
        } else if str_eq(t, "python") {
            Ok(ProjectTemplateType::Python)
        } else if str_eq(t, "dotnet") {
            Ok(ProjectTemplateType::Dotnet)
        } else if str_eq(t, "clang") || str_eq(t, "cpp") {
            Ok(ProjectTemplateType::CLang)
        } else {
            let mut e = concat("Unavailable Template: '", s);
            e.append("'");
            Err(e)
        }
    }

    /// `default`, `rust`, `python`, `dotnet` or `clang`.
    pub fn to_string(&self) -> (r: String)
        ensures
            r@ == template_text(*self),
    {
        match self {
            ProjectTemplateType::Default => string_of("default"),
            ProjectTemplateType::Rust => string_of("rust"),
            ProjectTemplateType::Python => string_of("python"),
            ProjectTemplateType::Dotnet => string_of("dotnet"),
            ProjectTemplateType::CLang => string_of("clang"),
        }
    }
}

impl ProjectParams {
    /// The parameters as text: project name, template, then author.
    pub fn to_string(&self) -> (r: String)
        ensures
            r@ == "\x1b[1m"@ + "Project"@ + reset_seq() + ": "@ + self.project_name@ + "\n"@ + "\x1b[1m"@
                + "Template"@ + reset_seq() + ": "@ + template_text(self.project_template) + "\n"@ + "\x1b[1m"@
                + "Author"@ + reset_seq() + ": "@ + self.author.name@ + " <"@ + self.author.email@ + ">\n"@,
    {
        let mut out = "Project".bold();
        out.append(": ");
        out.append(self.project_name.as_str());
        out.append("\n");
        let label = "Template".bold();
        out.append(label.as_str());
        out.append(": ");
        let t = self.project_template.to_string();
        out.append(t.as_str());
        out.append("\n");
        let label = "Author".bold();
        out.append(label.as_str());
        out.append(": ");
        out.append(self.author.name.as_str());
        out.append(" <");
        out.append(self.author.email.as_str());
        out.append(">\n");
        out
    }
}

} // verus!
