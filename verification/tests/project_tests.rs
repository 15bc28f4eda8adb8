use ipak::args::{
    pkg, project, system, CommandExecution, Commands, PkgCommands, PkgTask, ProjectCommands, ProjectTask,
    SystemCommands, SystemTask, Task,
};
use ipak::pkg::AuthorAboutData;
use ipak::project::{
    build, configure, ignore_list, install, project_build, project_install, project_package, project_purge,
    project_remove, project_run, purge, remove, package_file_names, skips_package_output, BuildMode,
    BuildOptions, ConfigureOptions, ExecMode, ExecShell, PackageTarget, ProjectParams, ProjectTemplateType,
};
use ipak::version::Version;

#[test]
fn exec_mode_from_flags() {
    assert_eq!(ExecMode::from_flags(true, false, true), ExecMode::Local);
    assert_eq!(ExecMode::from_flags(false, true, false), ExecMode::Global);
    assert_eq!(ExecMode::from_flags(false, false, false), ExecMode::Local);
    assert_eq!(ExecMode::from_flags(true, true, true), ExecMode::Global);
    assert_eq!(ExecMode::from_choice(Some(true), true), ExecMode::Local);
    assert_eq!(ExecMode::from_choice(Some(false), false), ExecMode::Global);
    assert_eq!(ExecMode::from_choice(None, true), ExecMode::Global);
    assert_eq!(ExecMode::default_for(false), ExecMode::Local);
    assert_eq!(ExecMode::Local.to_string(), "local");
    assert_eq!(ExecMode::Global.to_string(), "global");
}

#[test]
fn exec_shell_names() {
    assert_eq!(ExecShell::from_str("BASH"), Ok(ExecShell::Bash));
    assert_eq!(ExecShell::from_str("zsh"), Ok(ExecShell::Zsh));
    assert_eq!(ExecShell::from_str("Csh"), Ok(ExecShell::Csh));
    assert_eq!(ExecShell::from_str("rbash"), Ok(ExecShell::RBash));
    assert_eq!(ExecShell::from_str("fish"), Err("Unavailable Shell: fish".to_string()));
    assert_eq!(ExecShell::RBash.to_string(), "restricted bash");
    assert_eq!(ExecShell::default(), ExecShell::Bash);
    let cmd = ExecShell::RBash.generate();
    assert_eq!(cmd.program, "bash");
    assert_eq!(cmd.args, vec!["-r".to_string()]);
    assert!(ExecShell::Zsh.generate().args.is_empty());
}

#[test]
fn project_option_builders() {
    let b = project_build(true, None);
    assert_eq!(b.build_mode, BuildMode::Release);
    assert_eq!(b.build_shell, ExecShell::Bash);
    let b = project_build(false, Some(ExecShell::Zsh));
    assert_eq!(b.build_mode, BuildMode::Debug);
    assert_eq!(b.build_shell, ExecShell::Zsh);
    let i = project_install(true, Some(ExecShell::Csh));
    assert_eq!(i.install_mode, ExecMode::Global);
    assert_eq!(i.install_shell, ExecShell::Csh);
    let r = project_remove(ExecMode::Local, None);
    assert_eq!(r.remove_mode, ExecMode::Local);
    assert_eq!(r.remove_shell, ExecShell::Bash);
    let p = project_purge(ExecMode::Global, Some(ExecShell::RBash));
    assert_eq!(p.purge_mode, ExecMode::Global);
    assert_eq!(p.purge_shell, ExecShell::RBash);
    assert_eq!(project_package(None).target, PackageTarget::Normal);
    assert_eq!(project_package(Some(PackageTarget::Min)).target, PackageTarget::Min);
}

#[test]
fn options_text() {
    let b = BuildOptions::default();
    assert_eq!(
        b.to_string(),
        "\x1b[1m\x1b[36mBuild Options\x1b[0m\x1b[0m:\n  \x1b[1m\x1b[32mbuild-mode\x1b[0m\x1b[0m: debug\n  \x1b[1m\x1b[32mbuild-shell\x1b[0m\x1b[0m: bash\n"
    );
    let p = project_package(None);
    assert_eq!(p.to_string(), "\x1b[1m\x1b[36mPackage Options\x1b[0m\x1b[0m:\n  \x1b[1m\x1b[32mtarget\x1b[0m\x1b[0m: normal\n");
}

#[test]
fn script_commands() {
    let v = Version::from_str("0.3.1").unwrap();
    let b = build(&project_build(true, Some(ExecShell::RBash)), "demo", &v);
    assert_eq!(b.program, "bash");
    assert_eq!(b.args, vec!["-r".to_string(), "ipak/scripts/build.sh".to_string()]);
    let envs: Vec<(String, String)> = b.envs.iter().map(|e| (e.name.clone(), e.value.clone())).collect();
    assert_eq!(
        envs,
        vec![
            ("IPAK_PROJECT_NAME".to_string(), "demo".to_string()),
            ("IPAK_PROJECT_VERSION".to_string(), "0.3.1".to_string()),
            ("IPAK_BUILD_MODE".to_string(), "release".to_string()),
        ]
    );
    let i = install(&project_install(false, None), "demo", &v);
    assert_eq!(i.args, vec!["ipak/scripts/install.sh".to_string()]);
    assert_eq!(i.envs[2].name, "IPAK_INSTALL_MODE");
    assert_eq!(i.envs[2].value, "local");
    let r = remove(&project_remove(ExecMode::Global, None), "demo", &v);
    assert_eq!(r.args, vec!["ipak/scripts/remove.sh".to_string()]);
    assert_eq!(r.envs[2].value, "global");
    let p = purge(&project_purge(ExecMode::Local, Some(ExecShell::Zsh)), "demo", &v);
    assert_eq!(p.program, "zsh");
    assert_eq!(p.envs[2].name, "IPAK_PURGE_MODE");
    let c = configure(&ConfigureOptions { configure_mode: ExecMode::Local, configure_shell: ExecShell::Csh });
    assert_eq!(c.program, "csh");
    assert_eq!(c.args, vec!["ipak/scripts/configure.sh".to_string()]);
    let run = project_run(None, "Test", "demo", &v, &vec!["-x".to_string(), "y".to_string()]);
    assert_eq!(
        run.args,
        vec!["ipak/scripts/test.sh".to_string(), "--".to_string(), "-x".to_string(), "y".to_string()]
    );
    assert_eq!(run.envs.len(), 2);
}

#[test]
fn package_targets() {
    assert_eq!(PackageTarget::from_str("SRC"), Ok(PackageTarget::SourceBuild));
    assert_eq!(PackageTarget::from_str("default"), Ok(PackageTarget::Normal));
    assert_eq!(PackageTarget::from_str("minimal"), Ok(PackageTarget::Min));
    assert_eq!(PackageTarget::from_str("huge"), Err("Invalid Package Target: huge".to_string()));
    assert_eq!(PackageTarget::Min.to_string(), "minimal");
    assert_eq!(PackageTarget::SourceBuild.to_string(), "source-build");
    let sb = vec!["target/".to_string()];
    let normal = vec!["src/".to_string()];
    let min = vec!["docs/".to_string()];
    assert_eq!(ignore_list(PackageTarget::SourceBuild, &sb, &normal, &min), vec!["target/".to_string()]);
    assert_eq!(
        ignore_list(PackageTarget::Min, &sb, &normal, &min),
        vec!["target/".to_string(), "src/".to_string(), "docs/".to_string()]
    );
}

#[test]
fn templates() {
    assert_eq!(ProjectTemplateType::from_str("CPP"), Ok(ProjectTemplateType::CLang));
    assert_eq!(ProjectTemplateType::from_str("rust"), Ok(ProjectTemplateType::Rust));
    assert_eq!(ProjectTemplateType::from_str("go"), Err("Unavailable Template: 'go'".to_string()));
    assert_eq!(ProjectTemplateType::CLang.to_string(), "clang");
    assert_eq!(ProjectTemplateType::default(), ProjectTemplateType::Default);
    let params = ProjectParams {
        project_name: "demo".to_string(),
        project_template: ProjectTemplateType::Python,
        author: AuthorAboutData { name: "Ann".to_string(), email: "ann@x.org".to_string() },
    };
    assert_eq!(
        params.to_string(),
        "\x1b[1mProject\x1b[0m: demo\n\x1b[1mTemplate\x1b[0m: python\n\x1b[1mAuthor\x1b[0m: Ann <ann@x.org>\n"
    );
}

#[test]
fn dispatch_commands() {
    match project(ProjectCommands::Remove { local: false, global: false, shell: None }, true) {
        ProjectTask::Remove(o) => {
            assert_eq!(o.remove_mode, ExecMode::Global);
            assert_eq!(o.remove_shell, ExecShell::Bash);
        },
        _ => panic!("remove"),
    }
    match pkg(PkgCommands::List { local: true, global: false }, true) {
        PkgTask::List(m) => assert_eq!(m, ExecMode::Local),
        _ => panic!("list"),
    }
    match system(SystemCommands::Configure { local: false, global: true }) {
        SystemTask::Configure(c) => assert_eq!(c, Some(false)),
    }
    match Commands::Project(ProjectCommands::Init).exec(false) {
        Task::Project(ProjectTask::Init) => {},
        _ => panic!("init"),
    }
}

#[test]
fn package_output_paths() {
    assert!(skips_package_output("ipak/package"));
    assert!(skips_package_output("ipak/package/app-1.0/"));
    assert!(!skips_package_output("ipak/packages"));
    assert!(!skips_package_output("ipak"));
    assert!(!skips_package_output(""));
    let v = Version::from_str("1.2.0").unwrap();
    let (dir, archive) = package_file_names("app", &v);
    assert_eq!(dir, "app-1.2.0/");
    assert_eq!(archive, "app-1.2.0.ipak");
}
