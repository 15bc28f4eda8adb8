//! The commands of the command line, and what each of them asks to be done:
//! the scope, shell and options resolved from its flags.
use crate::archive::ArchiveType;
use crate::project::{
    mode_of_flags, project_build, project_install, project_package, project_purge, project_remove, BuildOptions,
    ExecMode, ExecShell, InstallOptions, PackageOptions, PackageTarget, ProjectTemplateType, PurgeOptions,
    RemoveOptions,
};
use vstd::prelude::*;

verus! {

/// The command line: one command.
#[derive(Debug)]
pub struct Args {
    pub command: Commands,
}

/// The groups of commands.
#[derive(Debug)]
pub enum Commands {
    Project(ProjectCommands),
    System(SystemCommands),
    Utils(UtilsCommands),
    Pkg(PkgCommands),
}

/// The commands on the project in the current directory.
#[derive(Debug)]
pub enum ProjectCommands {
    Create {
        project_name: String,
        template: Option<ProjectTemplateType>,
        author_name: Option<String>,
        author_email: Option<String>,
    },
    Build { release: bool, shell: Option<ExecShell> },
    Install { global: bool, shell: Option<ExecShell> },
    Remove { local: bool, global: bool, shell: Option<ExecShell> },
    Purge { local: bool, global: bool, shell: Option<ExecShell> },
    Package { target: Option<PackageTarget> },
    Metadata,
    Init,
    Run { shell: Option<ExecShell>, command: String, args: Vec<String> },
}

/// The commands on ipak itself.
#[derive(Debug)]
pub enum SystemCommands {
    Configure { local: bool, global: bool },
}

/// Utilities.
#[derive(Debug)]
pub enum UtilsCommands {
    Archive(ArchiveCommands),
}

/// Making and unpacking archives.
#[derive(Debug)]
pub enum ArchiveCommands {
    Create { from: String, to: String, archive_type: ArchiveType },
    Extract { from: String, to: String },
}

/// The commands on installed packages.
#[derive(Debug)]
pub enum PkgCommands {
    List { local: bool, global: bool },
    Install { file_paths: Vec<String>, local: bool, global: bool },
    Remove { package_names: Vec<String>, local: bool, global: bool },
    Purge { package_names: Vec<String>, local: bool, global: bool },
    MetaData { package_path: String },
    Configure { package_names: Vec<String>, local: bool, global: bool },
}

/// What a project command asks to be done.
#[derive(Debug)]
pub enum ProjectTask {
    Create {
        project_name: String,
        template: ProjectTemplateType,
        author_name: Option<String>,
        author_email: Option<String>,
    },
    Metadata,
    Build(BuildOptions),
    Install(InstallOptions),
    Remove(RemoveOptions),
    Purge(PurgeOptions),
    Package(PackageOptions),
    Init,
    Run { shell: ExecShell, command: String, args: Vec<String> },
}

/// What a package command asks to be done, in which scope.
#[derive(Debug)]
pub enum PkgTask {
    List(ExecMode),
    Install { file_paths: Vec<String>, mode: ExecMode },
    Remove { package_names: Vec<String>, mode: ExecMode },
    Purge { package_names: Vec<String>, mode: ExecMode },
    MetaData { package_path: String },
    Configure { package_names: Vec<String>, mode: ExecMode },
}

/// What a system command asks to be done.
#[derive(Debug)]
pub enum SystemTask {
    /// Configure ipak for the user (`Some(true)`), for the system
    /// (`Some(false)`), or for the default scope (`None`).
    Configure(Option<bool>),
}

/// What a command asks to be done.
#[derive(Debug)]
pub enum Task {
    Project(ProjectTask),
    System(SystemTask),
    Utils(ArchiveCommands),
    Pkg(PkgTask),
}

/// The shell chosen, bash by default.
pub open spec fn shell_or_bash(shell: Option<ExecShell>) -> ExecShell {
    match shell {
        Some(s) => s,
        None => ExecShell::Bash,
    }
}

/// Whether `r` is what the project command `args` asks, for a user who is
/// the superuser or not.
pub open spec fn project_task_matches(args: ProjectCommands, r: ProjectTask, superuser: bool) -> bool {
    match args {
        ProjectCommands::Create { project_name, template, author_name, author_email } => r matches ProjectTask::Create {
            project_name: n,
            template: t,
            author_name: an,
            author_email: ae,
        } && n@ == project_name@ && t == (match template {
            Some(x) => x,
            None => ProjectTemplateType::Default,
        }) && an == author_name && ae == author_email,
        ProjectCommands::Build { release, shell } => r matches ProjectTask::Build(o) && o.build_mode == (if release {
            crate::project::BuildMode::Release
        } else {
            crate::project::BuildMode::Debug
        }) && o.build_shell == shell_or_bash(shell),
        ProjectCommands::Install { global, shell } => r matches ProjectTask::Install(o) && o.install_mode == (
        if global {
            ExecMode::Global
        } else {
            ExecMode::Local
        }) && o.install_shell == shell_or_bash(shell),
        ProjectCommands::Remove { local, global, shell } => r matches ProjectTask::Remove(o) && o.remove_mode
            == mode_of_flags(local, global, superuser) && o.remove_shell == shell_or_bash(shell),
        ProjectCommands::Purge { local, global, shell } => r matches ProjectTask::Purge(o) && o.purge_mode
            == mode_of_flags(local, global, superuser) && o.purge_shell == shell_or_bash(shell),
        ProjectCommands::Package { target } => r matches ProjectTask::Package(o) && o.target == (match target {
            Some(t) => t,
            None => PackageTarget::Normal,
        }),
        ProjectCommands::Metadata => r is Metadata,
        ProjectCommands::Init => r is Init,
        ProjectCommands::Run { shell, command, args } => r matches ProjectTask::Run {
            shell: s,
            command: c,
            args: a,
        } && s == shell_or_bash(shell) && c@ == command@ && a@ == args@,
    }
}

/// Whether `r` is what the package command `args` asks, for a user who is
/// the superuser or not: the scope of its flags `--local` and `--global`.
pub open spec fn pkg_task_matches(args: PkgCommands, r: PkgTask, superuser: bool) -> bool {
    match args {
        PkgCommands::List { local, global } => r == PkgTask::List(mode_of_flags(local, global, superuser)),
        PkgCommands::Install { file_paths, local, global } => r matches PkgTask::Install { file_paths: f, mode }
            && f@ == file_paths@ && mode == mode_of_flags(local, global, superuser),
        PkgCommands::Remove { package_names, local, global } => r matches PkgTask::Remove {
            package_names: p,
            mode,
        } && p@ == package_names@ && mode == mode_of_flags(local, global, superuser),
        PkgCommands::Purge { package_names, local, global } => r matches PkgTask::Purge { package_names: p, mode }
            && p@ == package_names@ && mode == mode_of_flags(local, global, superuser),
        PkgCommands::MetaData { package_path } => r matches PkgTask::MetaData { package_path: p } && p@
            == package_path@,
        PkgCommands::Configure { package_names, local, global } => r matches PkgTask::Configure {
            package_names: p,
            mode,
        } && p@ == package_names@ && mode == mode_of_flags(local, global, superuser),
    }
}

/// What the system command `args` asks: the user scope for `--local` alone,
/// the system scope for `--global` alone, else the default scope.
pub open spec fn system_task(args: SystemCommands) -> SystemTask {
    match args {
        SystemCommands::Configure { local, global } => SystemTask::Configure(
            if local && !global {
                Some(true)
            } else if global && !local {
                Some(false)
            } else {
                None
            },
        ),
    }
}

/// What the command `c` asks, for a user who is the superuser or not.
pub open spec fn task_matches(c: Commands, r: Task, superuser: bool) -> bool {
    match c {
        Commands::Project(p) => r matches Task::Project(t) && project_task_matches(p, t, superuser),
        Commands::System(y) => r == Task::System(system_task(y)),
        Commands::Utils(u) => match u {
            UtilsCommands::Archive(a) => r == Task::Utils(a),
        },
        Commands::Pkg(k) => r matches Task::Pkg(t) && pkg_task_matches(k, t, superuser),
    }
}

/// What the project command `args` asks, for a user who is the superuser or not.
pub fn project(args: ProjectCommands, superuser: bool) -> (r: ProjectTask)
    ensures
        project_task_matches(args, r, superuser),
{
    match args {
        ProjectCommands::Create { project_name, template, author_name, author_email } => ProjectTask::Create {
            project_name,
            template: match template {
                Some(t) => t,
                None => ProjectTemplateType::Default,
            },
            author_name,
            author_email,
        },
        ProjectCommands::Metadata => ProjectTask::Metadata,
        ProjectCommands::Build { release, shell } => ProjectTask::Build(project_build(release, shell)),
        ProjectCommands::Install { global, shell } => ProjectTask::Install(project_install(global, shell)),
        ProjectCommands::Remove { local, global, shell } => ProjectTask::Remove(
            project_remove(ExecMode::from_flags(local, global, superuser), shell),
        ),
        ProjectCommands::Purge { local, global, shell } => ProjectTask::Purge(
            project_purge(ExecMode::from_flags(local, global, superuser), shell),
        ),
        ProjectCommands::Package { target } => ProjectTask::Package(project_package(target)),
        ProjectCommands::Init => ProjectTask::Init,
        ProjectCommands::Run { shell, command, args } => ProjectTask::Run {
            shell: match shell {
                Some(s) => s,
                None => ExecShell::Bash,
            },
            command,
            args,
        },
    }
}

/// What the package command `args` asks, for a user who is the superuser or
/// not: the scope of its flags `--local` and `--global`.
pub fn pkg(args: PkgCommands, superuser: bool) -> (r: PkgTask)
    ensures
        pkg_task_matches(args, r, superuser),
{
    match args {
        PkgCommands::List { local, global } => PkgTask::List(ExecMode::from_flags(local, global, superuser)),
        PkgCommands::Install { file_paths, local, global } => PkgTask::Install {
            file_paths,
            mode: ExecMode::from_flags(local, global, superuser),
        },
        PkgCommands::Remove { package_names, local, global } => PkgTask::Remove {
            package_names,
            mode: ExecMode::from_flags(local, global, superuser),
        },
        PkgCommands::Purge { package_names, local, global } => PkgTask::Purge {
            package_names,
            mode: ExecMode::from_flags(local, global, superuser),
        },
        PkgCommands::MetaData { package_path } => PkgTask::MetaData { package_path },
        PkgCommands::Configure { package_names, local, global } => PkgTask::Configure {
            package_names,
            mode: ExecMode::from_flags(local, global, superuser),
        },
    }
}

/// What the system command `args` asks: the user scope for `--local` alone,
/// the system scope for `--global` alone, else the default scope.
pub fn system(args: SystemCommands) -> (r: SystemTask)
    ensures
        r == system_task(args),
{
    match args {
        SystemCommands::Configure { local, global } => SystemTask::Configure(
            if local && !global {
                Some(true)
            } else if global && !local {
                Some(false)
            } else {
                None
            },
        ),
    }
}

/// A command that can say what it asks to be done.
pub trait CommandExecution: Sized {
    /// What the command asks, for a user who is the superuser or not.
    fn exec(self, superuser: bool) -> Task;
}

impl CommandExecution for ProjectCommands {
    fn exec(self, superuser: bool) -> (r: Task)
        ensures
            r matches Task::Project(t) && project_task_matches(self, t, superuser),
    {
        let t = project(self, superuser);
        Task::Project(t)
    }
}


impl CommandExecution for PkgCommands {
    fn exec(self, superuser: bool) -> (r: Task)
        ensures
            r matches Task::Pkg(t) && pkg_task_matches(self, t, superuser),
    {
        Task::Pkg(pkg(self, superuser))
    }
}

impl CommandExecution for SystemCommands {
    fn exec(self, superuser: bool) -> (r: Task)
        ensures
            r == Task::System(system_task(self)),
    {
        Task::System(system(self))
    }
}

impl CommandExecution for UtilsCommands {
    fn exec(self, superuser: bool) -> (r: Task)
        ensures
            r == Task::Utils(
                match self {
                    UtilsCommands::Archive(a) => a,
                },
            ),
    {
        match self {
            UtilsCommands::Archive(a) => Task::Utils(a),
        }
    }
}

impl CommandExecution for Commands {
    fn exec(self, superuser: bool) -> (r: Task)
        ensures
            task_matches(self, r, superuser),
    {
        match self {
            Commands::Project(c) => c.exec(superuser),
            Commands::System(c) => c.exec(superuser),
            Commands::Pkg(c) => c.exec(superuser),
            Commands::Utils(c) => c.exec(superuser),
        }
    }
}

} // verus!
