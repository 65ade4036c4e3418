use deploy_bot::config::{DockerComposeCommand, ProjectType};
use deploy_bot::installer::{
    cargo_release, install_dependencies, plan_command, plan_step, restart_invocation, run_build,
    user_id_from_output, user_lookup_error, Invocation, ProcessOutput, ProjectFiles, RunAs,
    RunMode, StepCommand,
};

fn no_files() -> ProjectFiles {
    ProjectFiles {
        pnpm_lock: false,
        yarn_lock: false,
        poetry_lock: false,
        requirements_txt: false,
        venv_dir: false,
        setup_py: false,
        pyproject_toml: false,
    }
}

fn shell_of(c: &StepCommand) -> Option<(String, bool)> {
    match c {
        StepCommand::Shell { command, with_project_env } => Some((command.clone(), *with_project_env)),
        _ => None,
    }
}

fn plain(command: &str) -> Result<Invocation, deploy_bot::error::AppError> {
    plan_command(command, &vec![], &vec![], None, None, None, None, None, false)
}

fn out(success: bool, stdout: &str, stderr: &str) -> ProcessOutput {
    ProcessOutput { success, stdout: stdout.to_string(), stderr: stderr.to_string() }
}

#[test]
fn tasks_test_run_command_empty_command() {
    let result = plain("");
    assert!(result.is_err());
}

#[test]
fn task_test_run_command_empty_command() {
    let result = plan_command("", &vec![], &vec![], None, None, None, None, None, false);
    assert!(result.is_err());
}

#[test]
fn empty_command_message() {
    let e = plain(" \t\n").unwrap_err();
    assert_eq!(e.to_string(), "Deployment error: Empty command");
}

#[test]
fn test_run_build_custom_command() {
    let result = run_build(&ProjectType::Custom, Some("echo test"), &no_files());
    assert_eq!(shell_of(&result), Some(("echo test".to_string(), true)));
}

#[test]
fn test_run_build_custom_project_type() {
    let result = run_build(&ProjectType::Custom, None, &no_files());
    assert!(matches!(result, StepCommand::Nothing));
}

#[test]
fn install_commands_by_type() {
    let f = no_files();
    assert_eq!(shell_of(&install_dependencies(&ProjectType::Nodejs, None, &f)), Some(("npm install".to_string(), true)));
    let mut y = f;
    y.yarn_lock = true;
    assert_eq!(shell_of(&install_dependencies(&ProjectType::Nodejs, None, &y)), Some(("yarn install".to_string(), true)));
    y.pnpm_lock = true;
    assert_eq!(shell_of(&install_dependencies(&ProjectType::Nodejs, None, &y)), Some(("pnpm install".to_string(), true)));
    assert!(matches!(install_dependencies(&ProjectType::Rust, None, &f), StepCommand::Nothing));
    assert!(matches!(install_dependencies(&ProjectType::Python, None, &f), StepCommand::Nothing));
    let mut p = f;
    p.requirements_txt = true;
    assert_eq!(
        shell_of(&install_dependencies(&ProjectType::Python, None, &p)),
        Some(("python3 -m venv .venv && . .venv/bin/activate && pip install -r requirements.txt".to_string(), false))
    );
    p.venv_dir = true;
    assert_eq!(
        shell_of(&install_dependencies(&ProjectType::Python, None, &p)),
        Some((". .venv/bin/activate && pip install -r requirements.txt".to_string(), false))
    );
    p.poetry_lock = true;
    assert_eq!(shell_of(&install_dependencies(&ProjectType::Python, None, &p)), Some(("poetry install".to_string(), false)));
    assert_eq!(
        shell_of(&install_dependencies(&ProjectType::Php, None, &f)),
        Some(("composer install --no-dev".to_string(), false))
    );
    assert!(matches!(install_dependencies(&ProjectType::Custom, None, &f), StepCommand::Nothing));
    assert_eq!(
        shell_of(&install_dependencies(&ProjectType::Php, Some("npm install"), &f)),
        Some(("npm install".to_string(), true))
    );
}

#[test]
fn build_commands_by_type() {
    let f = no_files();
    assert_eq!(shell_of(&run_build(&ProjectType::Nodejs, None, &f)), Some(("npm run build".to_string(), true)));
    assert!(matches!(run_build(&ProjectType::Rust, None, &f), StepCommand::CargoRelease));
    assert!(matches!(run_build(&ProjectType::Php, None, &f), StepCommand::Nothing));
    assert!(matches!(run_build(&ProjectType::Python, None, &f), StepCommand::Nothing));
    let mut p = f;
    p.pyproject_toml = true;
    assert_eq!(shell_of(&run_build(&ProjectType::Python, None, &p)), Some(("python -m build".to_string(), false)));
    p.setup_py = true;
    assert_eq!(
        shell_of(&run_build(&ProjectType::Python, None, &p)),
        Some(("python setup.py bdist_wheel".to_string(), false))
    );
}

#[test]
fn direct_command_plan() {
    let host = vec![("PATH".to_string(), "/usr/bin".to_string()), ("NODE_ENV".to_string(), "dev".to_string())];
    let project = vec![("NODE_ENV".to_string(), "production".to_string())];
    let inv = plan_command("npm  run\tbuild", &project, &host, None, None, None, None, None, true).unwrap();
    assert_eq!(inv.program, "npm");
    assert_eq!(inv.args, vec!["run", "build"]);
    assert_eq!(inv.mode, RunMode::Direct);
    assert!(!inv.stream_output);
    assert_eq!(inv.command_text, "npm  run\tbuild");
    let mut env = std::collections::HashMap::new();
    for (k, v) in &inv.env {
        env.insert(k.clone(), v.clone());
    }
    assert_eq!(env.get("NODE_ENV"), Some(&"production".to_string()));
    assert_eq!(env.get("PATH"), Some(&"/usr/bin".to_string()));
}

#[test]
fn direct_command_as_other_user() {
    let user = RunAs { user: "www-data".to_string(), uid: 33, gid: 33 };
    let inv = plan_command("composer install", &vec![], &vec![], None, None, None, None, Some(&user), false).unwrap();
    assert_eq!(inv.program, "sudo");
    assert_eq!(inv.args, vec!["-u", "www-data", "composer", "install"]);
    assert_eq!(inv.command_text, "sudo -u www-data composer install");
    // With a user the command line is never empty.
    let inv = plan_command("", &vec![], &vec![], None, None, None, None, Some(&user), false).unwrap();
    assert_eq!(inv.args, vec!["-u", "www-data"]);
}

#[test]
fn docker_command_plan() {
    let paths = vec!["./docker-compose.yaml".to_string(), "./docker-compose.override.yaml".to_string()];
    let project = vec![("A".to_string(), "1".to_string())];
    let host = vec![("PATH".to_string(), "/usr/bin".to_string())];
    let user = RunAs { user: "www-data".to_string(), uid: 33, gid: 1000 };
    let inv = plan_command(
        "php artisan migrate",
        &project,
        &host,
        Some(&paths),
        Some(DockerComposeCommand::DockerCompose),
        Some("php"),
        Some("/app"),
        Some(&user),
        true,
    )
    .unwrap();
    assert_eq!(inv.program, "docker");
    assert_eq!(
        inv.args,
        vec![
            "compose", "-f", "./docker-compose.yaml", "-f", "./docker-compose.override.yaml", "run", "--rm",
            "-w", "/app", "-u", "33:1000", "php", "sh", "-c", "php artisan migrate"
        ]
    );
    assert_eq!(
        inv.env,
        vec![("A".to_string(), "1".to_string()), ("_FORCE_EMPTY_ENV".to_string(), "1".to_string())]
    );
    assert_eq!(inv.mode, RunMode::DockerCompose);
    assert!(inv.stream_output);

    let legacy = plan_command(
        "npm install",
        &vec![],
        &vec![],
        Some(&vec!["./docker-compose.yaml".to_string()]),
        Some(DockerComposeCommand::DockerComposeLegacy),
        Some("node"),
        None,
        None,
        false,
    )
    .unwrap();
    assert_eq!(legacy.program, "docker-compose");
    assert_eq!(legacy.args, vec!["-f", "./docker-compose.yaml", "run", "--rm", "node", "sh", "-c", "npm install"]);

    // A service without compose files runs the command directly.
    let host = vec![("PATH".to_string(), "/usr/bin".to_string())];
    let project = vec![("A".to_string(), "1".to_string())];
    let direct = plan_command("npm install", &project, &host, None, None, Some("node"), None, None, false).unwrap();
    assert_eq!(direct.mode, RunMode::Direct);
    assert_eq!(
        direct.env,
        vec![("A".to_string(), "1".to_string()), ("_FORCE_EMPTY_ENV".to_string(), "1".to_string())]
    );
}

#[test]
fn step_plans() {
    let project = vec![("K".to_string(), "V".to_string())];
    let php = install_dependencies(&ProjectType::Php, None, &no_files());
    let inv = plan_step(&php, &project, &vec![], None, None, None, None, None, false).unwrap().unwrap();
    assert!(inv.env.is_empty());
    let custom = install_dependencies(&ProjectType::Php, Some("make"), &no_files());
    let inv = plan_step(&custom, &project, &vec![], None, None, None, None, None, false).unwrap().unwrap();
    assert_eq!(inv.env, project);
    assert!(plan_step(&StepCommand::Nothing, &project, &vec![], None, None, None, None, None, false).is_none());
    let cargo = plan_step(&StepCommand::CargoRelease, &project, &vec![], None, None, None, None, None, false)
        .unwrap()
        .unwrap();
    assert_eq!(cargo.program, "cargo");
    assert_eq!(cargo.args, vec!["build", "--release"]);
    assert_eq!(cargo_release().command_text, "cargo build --release");
}

#[test]
fn finishing_outputs() {
    let direct = plain("make all").unwrap();
    assert_eq!(direct.finish(&out(true, "built\n", "warn\n")).unwrap(), "built\n");
    assert_eq!(direct.finish(&out(true, "", "warn\n")).unwrap(), "warn\n");
    assert_eq!(direct.finish(&out(true, "", "")).unwrap(), "");
    assert_eq!(
        direct.finish(&out(false, "o", "e")).unwrap_err().to_string(),
        "Deployment error: Command failed: make all\nstdout: o\nstderr: e"
    );
    let docker = plan_command("ls", &vec![], &vec![], Some(&vec![]), None, Some("web"), None, None, false).unwrap();
    assert_eq!(
        docker.finish(&out(false, "", "no such service")).unwrap_err().to_string(),
        "Deployment error: Docker compose run failed: ls\nno such service"
    );
    let cargo = cargo_release();
    assert_eq!(
        cargo.finish(&out(false, "x", "error[E0308]")).unwrap_err().to_string(),
        "Deployment error: cargo build failed: error[E0308]"
    );
    assert_eq!(cargo.finish(&out(true, "", "Finished")).unwrap(), "Finished");
}

#[test]
fn streamed_lines_skip_container_ids() {
    let docker = plan_command("ls", &vec![], &vec![], Some(&vec![]), None, Some("web"), None, None, true).unwrap();
    let lines = docker.streamed_lines(&out(true, "a\nb\n", "3f2a-9c\nreal warning\n\n"));
    assert_eq!(lines, vec!["a", "b", "real warning"]);
    let quiet = plan_command("ls", &vec![], &vec![], Some(&vec![]), None, Some("web"), None, None, false).unwrap();
    assert!(quiet.streamed_lines(&out(true, "a\n", "")).is_empty());
}

#[test]
fn user_ids() {
    assert_eq!(user_id_from_output("www-data", "UID", &out(true, "33\n", "")).unwrap(), 33);
    assert_eq!(
        user_id_from_output("bob", "UID", &out(false, "", "id: bob: no such user")).unwrap_err().to_string(),
        "Deployment error: User 'bob' does not exist on host"
    );
    assert_eq!(
        user_id_from_output("bob", "GID", &out(true, "abc\n", "")).unwrap_err().to_string(),
        "Deployment error: Invalid GID for user 'bob': invalid digit found in string"
    );
    assert_eq!(
        user_id_from_output("bob", "UID", &out(true, "  \n", "")).unwrap_err().to_string(),
        "Deployment error: Invalid UID for user 'bob': cannot parse integer from empty string"
    );
    assert_eq!(
        user_id_from_output("bob", "UID", &out(true, "99999999999\n", "")).unwrap_err().to_string(),
        "Deployment error: Invalid UID for user 'bob': number too large to fit in target type"
    );
    assert_eq!(
        user_lookup_error("bob", "UID", "not found").to_string(),
        "Deployment error: Failed to get UID for user 'bob': not found"
    );
}

#[test]
fn restart_invocations() {
    let paths = vec!["./a.yaml".to_string()];
    let inv = restart_invocation("web", Some(&paths), Some(DockerComposeCommand::DockerCompose));
    assert_eq!(inv.program, "docker");
    assert_eq!(inv.args, vec!["compose", "-f", "./a.yaml", "restart", "web"]);
    let inv = restart_invocation("worker", None, Some(DockerComposeCommand::DockerComposeLegacy));
    assert_eq!(inv.program, "docker-compose");
    assert_eq!(inv.args, vec!["restart", "worker"]);
    assert_eq!(inv.command_text, "restart worker");
}

#[test]
fn test_run_command_with_docker_compose_path_none() {
    let result = plan_command("echo test", &vec![], &vec![], None, None, None, None, None, false);
    let inv = result.unwrap();
    assert_eq!(inv.program, "echo");
    assert_eq!(inv.args, vec!["test"]);
}

#[test]
fn test_run_command_with_docker_compose_path_some() {
    let paths = vec!["./docker-compose.yaml".to_string()];
    let result = plan_command(
        "echo test",
        &vec![],
        &vec![],
        Some(&paths),
        Some(DockerComposeCommand::DockerCompose),
        Some("node"),
        None,
        None,
        false,
    );
    let inv = result.unwrap();
    assert_eq!(inv.program, "docker");
    assert_eq!(inv.args, vec!["compose", "-f", "./docker-compose.yaml", "run", "--rm", "node", "sh", "-c", "echo test"]);
}

#[test]
fn only_command_lines_run_as_the_user() {
    let f = no_files();
    assert!(install_dependencies(&ProjectType::Nodejs, None, &f).runs_shell());
    assert!(run_build(&ProjectType::Nodejs, Some("make"), &f).runs_shell());
    assert!(!run_build(&ProjectType::Rust, None, &f).runs_shell());
    assert!(!install_dependencies(&ProjectType::Rust, None, &f).runs_shell());
}
