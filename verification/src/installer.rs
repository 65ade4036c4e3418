//! The commands of a deployment's install and build steps, how a command is
//! started (directly, as another user, or inside a Docker Compose service),
//! and what its exit status and output make of the step.

use vstd::prelude::*;
use vstd::string::*;
use crate::config::{DockerComposeCommand, ProjectType};
use crate::error::{is_deployment_error, AppError, AppResult};
use crate::text::{
    chars_of, decimal, line_ranges, lines_spec, parse_u32_chars, parse_u32_spec, push_decimal,
    split_words, string_from_chars, strings_view, trim_bounds, trim_ws, words, IntErrorKind,
};

verus! {

/// The marker files in a project directory that decide which commands the
/// install and build steps run.
#[derive(Debug, Clone, Copy)]
pub struct ProjectFiles {
    /// `pnpm-lock.yaml`
    pub pnpm_lock: bool,
    /// `yarn.lock`
    pub yarn_lock: bool,
    /// `poetry.lock`
    pub poetry_lock: bool,
    /// `requirements.txt`
    pub requirements_txt: bool,
    /// `.venv`
    pub venv_dir: bool,
    /// `setup.py`
    pub setup_py: bool,
    /// `pyproject.toml`
    pub pyproject_toml: bool,
}

/// What a step runs.
#[derive(Debug, Clone)]
pub enum StepCommand {
    /// Nothing: the step succeeds with empty output.
    Nothing,
    /// A command line, run with the project's environment variables or
    /// with none of them.
    Shell { command: String, with_project_env: bool },
    /// `cargo build --release` in the project directory.
    CargoRelease,
}

/// What a step runs, with its text as a character sequence.
pub enum StepCommandView {
    Nothing,
    Shell(Seq<char>, bool),
    CargoRelease,
}

impl StepCommand {
    pub open spec fn view(self) -> StepCommandView {
        match self {
            StepCommand::Nothing => StepCommandView::Nothing,
            StepCommand::Shell { command, with_project_env } => StepCommandView::Shell(
                command@,
                with_project_env,
            ),
            StepCommand::CargoRelease => StepCommandView::CargoRelease,
        }
    }

    /// Whether the step runs a command line, the only kind of step that
    /// runs as the project's user.
    pub fn runs_shell(&self) -> (r: bool)
        ensures
            r == (self.view() is Shell),
    {
        match self {
            StepCommand::Shell { .. } => true,
            _ => false,
        }
    }
}

/// The command of the install step: the project's own when it names one;
/// otherwise the package manager of its type, chosen by its lock files.
pub open spec fn install_spec(t: ProjectType, custom: Option<Seq<char>>, f: ProjectFiles) -> StepCommandView {
    match custom {
        Some(c) => StepCommandView::Shell(c, true),
        None => match t {
            ProjectType::Nodejs => StepCommandView::Shell(
                if f.pnpm_lock {
                    "pnpm install"@
                } else if f.yarn_lock {
                    "yarn install"@
                } else {
                    "npm install"@
                },
                true,
            ),
            ProjectType::Rust => StepCommandView::Nothing,
            ProjectType::Python => if f.poetry_lock {
                StepCommandView::Shell("poetry install"@, false)
            } else if f.requirements_txt {
                StepCommandView::Shell(
                    if f.venv_dir {
                        ". .venv/bin/activate && pip install -r requirements.txt"@
                    } else {
                        "python3 -m venv .venv && . .venv/bin/activate && pip install -r requirements.txt"@
                    },
                    false,
                )
            } else {
                StepCommandView::Nothing
            },
            ProjectType::Php => StepCommandView::Shell("composer install --no-dev"@, false),
            ProjectType::Custom => StepCommandView::Nothing,
        },
    }
}

/// The command of the build step: the project's own when it names one;
/// otherwise the build of its type.
pub open spec fn build_spec(t: ProjectType, custom: Option<Seq<char>>, f: ProjectFiles) -> StepCommandView {
    match custom {
        Some(c) => StepCommandView::Shell(c, true),
        None => match t {
            ProjectType::Nodejs => StepCommandView::Shell("npm run build"@, true),
            ProjectType::Rust => StepCommandView::CargoRelease,
            ProjectType::Python => if f.setup_py {
                StepCommandView::Shell("python setup.py bdist_wheel"@, false)
            } else if f.pyproject_toml {
                StepCommandView::Shell("python -m build"@, false)
            } else {
                StepCommandView::Nothing
            },
            ProjectType::Php => StepCommandView::Nothing,
            ProjectType::Custom => StepCommandView::Nothing,
        },
    }
}

fn shell(command: &str, with_project_env: bool) -> (c: StepCommand)
    ensures
        c.view() == StepCommandView::Shell(command@, with_project_env),
{
    StepCommand::Shell { command: String::from_str(command), with_project_env }
}

/// Install dependencies based on project type: decides the command the
/// install step runs.
pub fn install_dependencies(
    project_type: &ProjectType,
    custom_command: Option<&str>,
    files: &ProjectFiles,
) -> (c: StepCommand)
    ensures
        c.view() == install_spec(
            *project_type,
            match custom_command {
                Some(s) => Some(s@),
                None => None,
            },
            *files,
        ),
{
    if let Some(cmd) = custom_command {
        return shell(cmd, true);
    }
    match project_type {
        ProjectType::Nodejs => {
            if files.pnpm_lock {
                shell("pnpm install", true)
            } else if files.yarn_lock {
                shell("yarn install", true)
            } else {
                shell("npm install", true)
            }
        },
        ProjectType::Rust => StepCommand::Nothing,
        ProjectType::Python => {
            if files.poetry_lock {
                shell("poetry install", false)
            } else if files.requirements_txt {
                if files.venv_dir {
                    shell(". .venv/bin/activate && pip install -r requirements.txt", false)
                } else {
                    shell(
                        "python3 -m venv .venv && . .venv/bin/activate && pip install -r requirements.txt",
                        false,
                    )
                }
            } else {
                StepCommand::Nothing
            }
        },
        ProjectType::Php => shell("composer install --no-dev", false),
        ProjectType::Custom => StepCommand::Nothing,
    }
}

/// Run build based on project type: decides what the build step runs.
pub fn run_build(project_type: &ProjectType, custom_command: Option<&str>, files: &ProjectFiles) -> (c:
    StepCommand)
    ensures
        c.view() == build_spec(
            *project_type,
            match custom_command {
                Some(s) => Some(s@),
                None => None,
            },
            *files,
        ),
{
    if let Some(cmd) = custom_command {
        return shell(cmd, true);
    }
    match project_type {
        ProjectType::Nodejs => shell("npm run build", true),
        ProjectType::Rust => StepCommand::CargoRelease,
        ProjectType::Python => {
            if files.setup_py {
                shell("python setup.py bdist_wheel", false)
            } else if files.pyproject_toml {
                shell("python -m build", false)
            } else {
                StepCommand::Nothing
            }
        },
        ProjectType::Php => StepCommand::Nothing,
        ProjectType::Custom => StepCommand::Nothing,
    }
}

} // verus!

verus! {

/// How a command is started.
#[derive(Debug, Clone, Copy, PartialEq, Eq, Structural)]
pub enum RunMode {
    /// As its own program, split from the command line at white space.
    Direct,
    /// Inside a Docker Compose service, through `sh -c`.
    DockerCompose,
    /// `cargo build --release`.
    Cargo,
}

/// The user commands run as, with the user and group ids the system gives
/// for that name.
#[derive(Debug, Clone)]
pub struct RunAs {
    pub user: String,
    pub uid: u32,
    pub gid: u32,
}

/// A process to start in the project directory: program, arguments, and
/// the environment variables set on it (a later pair wins over an earlier
/// one with the same name).
#[derive(Debug, Clone)]
pub struct Invocation {
    pub program: String,
    pub args: Vec<String>,
    pub env: Vec<(String, String)>,
    pub mode: RunMode,
    /// The command as messages name it.
    pub command_text: String,
    /// Whether the output lines are logged one by one as well.
    pub stream_output: bool,
}

/// An invocation, with its texts as character sequences.
pub struct InvocationView {
    pub program: Seq<char>,
    pub args: Seq<Seq<char>>,
    pub env: Seq<(Seq<char>, Seq<char>)>,
    pub mode: RunMode,
    pub command_text: Seq<char>,
    pub stream_output: bool,
}

/// A list of environment pairs, as character sequences.
pub open spec fn env_view(v: Seq<(String, String)>) -> Seq<(Seq<char>, Seq<char>)> {
    v.map_values(|p: (String, String)| (p.0@, p.1@))
}

impl Invocation {
    pub open spec fn view(self) -> InvocationView {
        InvocationView {
            program: self.program@,
            args: strings_view(self.args@),
            env: env_view(self.env@),
            mode: self.mode,
            command_text: self.command_text@,
            stream_output: self.stream_output,
        }
    }
}

/// `-f` and the path, for each compose file in order.
pub open spec fn file_args(paths: Seq<Seq<char>>) -> Seq<Seq<char>>
    decreases paths.len(),
{
    if paths.len() == 0 {
        Seq::empty()
    } else {
        file_args(paths.drop_last()) + seq!["-f"@, paths.last()]
    }
}

/// The program that runs Docker Compose: `docker-compose` for the legacy
/// program, `docker` otherwise.
pub open spec fn compose_program(c: Option<DockerComposeCommand>) -> Seq<char> {
    match c {
        Some(DockerComposeCommand::DockerComposeLegacy) => "docker-compose"@,
        _ => "docker"@,
    }
}

/// The arguments before the compose files: `compose` for the plugin.
pub open spec fn compose_lead(c: Option<DockerComposeCommand>) -> Seq<Seq<char>> {
    match c {
        Some(DockerComposeCommand::DockerComposeLegacy) => Seq::empty(),
        _ => seq!["compose"@],
    }
}

/// A flag and its value, or nothing.
pub open spec fn opt_flag(flag: Seq<char>, v: Option<Seq<char>>) -> Seq<Seq<char>> {
    match v {
        Some(x) => seq![flag, x],
        None => Seq::empty(),
    }
}

/// The `uid:gid` a container runs as.
pub open spec fn ids_text(uid: u32, gid: u32) -> Seq<char> {
    decimal(uid as nat) + seq![':'] + decimal(gid as nat)
}

/// The arguments of a `run --rm` of a command in a compose service.
pub open spec fn docker_args(
    c: Option<DockerComposeCommand>,
    paths: Seq<Seq<char>>,
    working_dir: Option<Seq<char>>,
    user: Option<Seq<char>>,
    service: Seq<char>,
    command: Seq<char>,
) -> Seq<Seq<char>> {
    compose_lead(c) + file_args(paths) + seq!["run"@, "--rm"@] + opt_flag("-w"@, working_dir)
        + opt_flag("-u"@, user) + seq![service, "sh"@, "-c"@, command]
}

/// The command line run directly: through `sudo -u` when another user is
/// named.
pub open spec fn direct_text(command: Seq<char>, user: Option<Seq<char>>) -> Seq<char> {
    match user {
        Some(u) => "sudo -u "@ + u + " "@ + command,
        None => command,
    }
}

/// The variables set on a command: with a service named, the project's and
/// a marker variable, so that the host's do not reach the service; without
/// one, the host's overridden by the project's.
pub open spec fn command_env(
    project_env: Seq<(Seq<char>, Seq<char>)>,
    host_env: Seq<(Seq<char>, Seq<char>)>,
    service: Option<Seq<char>>,
) -> Seq<(Seq<char>, Seq<char>)> {
    if service is Some {
        project_env + seq![("_FORCE_EMPTY_ENV"@, "1"@)]
    } else {
        host_env + project_env
    }
}

/// How a command is started, or the message of the error that stops it.
/// With both a service and compose files it runs in the service; otherwise
/// it runs directly, and an empty command line is an error. Its variables
/// are `command_env`.
pub open spec fn plan_spec(
    command: Seq<char>,
    project_env: Seq<(Seq<char>, Seq<char>)>,
    host_env: Seq<(Seq<char>, Seq<char>)>,
    paths: Option<Seq<Seq<char>>>,
    c: Option<DockerComposeCommand>,
    service: Option<Seq<char>>,
    working_dir: Option<Seq<char>>,
    run_as: Option<(Seq<char>, u32, u32)>,
    stream: bool,
) -> Result<InvocationView, Seq<char>> {
    match (service, paths) {
        (Some(s), Some(ps)) => Ok(
            InvocationView {
                program: compose_program(c),
                args: docker_args(
                    c,
                    ps,
                    working_dir,
                    match run_as {
                        Some(r) => Some(ids_text(r.1, r.2)),
                        None => None,
                    },
                    s,
                    command,
                ),
                env: command_env(project_env, host_env, service),
                mode: RunMode::DockerCompose,
                command_text: command,
                stream_output: stream,
            },
        ),
        _ => {
            let fc = direct_text(
                command,
                match run_as {
                    Some(r) => Some(r.0),
                    None => None,
                },
            );
            let ws = words(fc);
            if ws.len() == 0 {
                Err("Empty command"@)
            } else {
                Ok(
                    InvocationView {
                        program: ws[0],
                        args: ws.drop_first(),
                        env: command_env(project_env, host_env, service),
                        mode: RunMode::Direct,
                        command_text: fc,
                        stream_output: false,
                    },
                )
            }
        },
    }
}

/// The invocation that answers a plan.
pub open spec fn answers_plan(r: AppResult<Invocation>, p: Result<InvocationView, Seq<char>>) -> bool {
    match p {
        Ok(v) => match r {
            Ok(i) => i.view() == v,
            Err(_) => false,
        },
        Err(m) => is_deployment_error(r, m),
    }
}

fn clone_env(v: &Vec<(String, String)>) -> (r: Vec<(String, String)>)
    ensures
        env_view(r@) == env_view(v@),
{
    let mut r: Vec<(String, String)> = Vec::new();
    let mut i: usize = 0;
    while i < v.len()
        invariant
            i <= v@.len(),
            env_view(r@) == env_view(v@.take(i as int)),
        decreases v@.len() - i,
    {
        let ghost before = r@;
        let p = (v[i].0.clone(), v[i].1.clone());
        r.push(p);
        assert(env_view(r@) =~= env_view(before).push((v@[i as int].0@, v@[i as int].1@)));
        assert(v@.take(i + 1) =~= v@.take(i as int).push(v@[i as int]));
        assert(env_view(v@.take(i + 1)) =~= env_view(v@.take(i as int)).push(
            (v@[i as int].0@, v@[i as int].1@),
        ));
        i = i + 1;
    }
    assert(v@.take(v@.len() as int) =~= v@);
    r
}

fn append_env(r: &mut Vec<(String, String)>, v: &Vec<(String, String)>)
    ensures
        env_view(final(r)@) == env_view(old(r)@) + env_view(v@),
{
    let ghost base = env_view(r@);
    let mut i: usize = 0;
    while i < v.len()
        invariant
            i <= v@.len(),
            env_view(r@) == base + env_view(v@.take(i as int)),
        decreases v@.len() - i,
    {
        let ghost before = r@;
        let p = (v[i].0.clone(), v[i].1.clone());
        r.push(p);
        assert(env_view(r@) =~= env_view(before).push((v@[i as int].0@, v@[i as int].1@)));
        assert(v@.take(i + 1) =~= v@.take(i as int).push(v@[i as int]));
        assert(env_view(v@.take(i + 1)) =~= env_view(v@.take(i as int)).push(
            (v@[i as int].0@, v@[i as int].1@),
        ));
        i = i + 1;
    }
    assert(v@.take(v@.len() as int) =~= v@);
}

fn push_arg(args: &mut Vec<String>, a: &str)
    ensures
        strings_view(final(args)@) == strings_view(old(args)@).push(a@),
{
    let ghost before = args@;
    args.push(String::from_str(a));
    assert(strings_view(args@) =~= strings_view(before).push(a@));
}

/// The `uid:gid` text of a user.
fn ids_string(uid: u32, gid: u32) -> (s: String)
    ensures
        s@ == ids_text(uid, gid),
{
    let mut s = String::new();
    push_decimal(&mut s, uid as u64);
    s.push(':');
    push_decimal(&mut s, gid as u64);
    s
}

/// The arguments that name Docker Compose and its files.
fn compose_file_args(c: Option<DockerComposeCommand>, paths: &Vec<String>) -> (args: Vec<String>)
    ensures
        strings_view(args@) == compose_lead(c) + file_args(strings_view(paths@)),
{
    let mut args: Vec<String> = Vec::new();
    match c {
        Some(DockerComposeCommand::DockerComposeLegacy) => {},
        _ => push_arg(&mut args, "compose"),
    }
    assert(strings_view(args@) =~= compose_lead(c));
    let ghost lead = compose_lead(c);
    let ghost ps = strings_view(paths@);
    let mut i: usize = 0;
    assert(ps.take(0) =~= Seq::<Seq<char>>::empty());
    while i < paths.len()
        invariant
            i <= paths@.len(),
            ps == strings_view(paths@),
            strings_view(args@) == lead + file_args(ps.take(i as int)),
        decreases paths@.len() - i,
    {
        push_arg(&mut args, "-f");
        push_arg(&mut args, paths[i].as_str());
        assert(ps.take(i + 1).drop_last() =~= ps.take(i as int));
        assert(ps.take(i + 1).last() == paths@[i as int]@);
        i = i + 1;
    }
    assert(ps.take(paths@.len() as int) =~= ps);
    args
}

/// The arguments of a `run --rm` in a compose service.
fn compose_run_args(
    c: Option<DockerComposeCommand>,
    paths: &Vec<String>,
    working_dir: Option<&str>,
    user: Option<&str>,
    service: &str,
    command: &str,
) -> (args: Vec<String>)
    ensures
        strings_view(args@) == docker_args(
            c,
            strings_view(paths@),
            match working_dir {
                Some(w) => Some(w@),
                None => None,
            },
            match user {
                Some(u) => Some(u@),
                None => None,
            },
            service@,
            command@,
        ),
{
    let mut args = compose_file_args(c, paths);
    let ghost ps = strings_view(paths@);
    push_arg(&mut args, "run");
    push_arg(&mut args, "--rm");
    if let Some(w) = working_dir {
        push_arg(&mut args, "-w");
        push_arg(&mut args, w);
    }
    if let Some(u) = user {
        push_arg(&mut args, "-u");
        push_arg(&mut args, u);
    }
    push_arg(&mut args, service);
    push_arg(&mut args, "sh");
    push_arg(&mut args, "-c");
    push_arg(&mut args, command);
    proof {
        let wd = match working_dir {
            Some(w) => Some(w@),
            None => None,
        };
        let us = match user {
            Some(u) => Some(u@),
            None => None,
        };
        assert(strings_view(args@) =~= docker_args(c, ps, wd, us, service@, command@));
    }
    args
}

} // verus!

verus! {

/// The user a plan names, as plain values.
pub open spec fn run_as_view(r: Option<&RunAs>) -> Option<(Seq<char>, u32, u32)> {
    match r {
        Some(a) => Some((a.user@, a.uid, a.gid)),
        None => None,
    }
}

/// An optional string slice, as a plain value.
pub open spec fn opt_str(s: Option<&str>) -> Option<Seq<char>> {
    match s {
        Some(x) => Some(x@),
        None => None,
    }
}

/// An optional list of paths, as plain values.
pub open spec fn opt_paths(p: Option<&Vec<String>>) -> Option<Seq<Seq<char>>> {
    match p {
        Some(v) => Some(strings_view(v@)),
        None => None,
    }
}

/// Decides how a command of a deployment step is started: inside the
/// compose service when a service and compose files are given, otherwise
/// directly (through `sudo -u` for another user). `host_env` is the
/// service's own environment; `stream_output` asks for the output lines of
/// a service run to be logged one by one.
pub fn plan_command(
    command: &str,
    env_vars: &Vec<(String, String)>,
    host_env: &Vec<(String, String)>,
    compose_paths: Option<&Vec<String>>,
    compose_command: Option<DockerComposeCommand>,
    docker_service: Option<&str>,
    working_dir: Option<&str>,
    run_as: Option<&RunAs>,
    stream_output: bool,
) -> (r: AppResult<Invocation>)
    ensures
        answers_plan(
            r,
            plan_spec(
                command@,
                env_view(env_vars@),
                env_view(host_env@),
                opt_paths(compose_paths),
                compose_command,
                opt_str(docker_service),
                opt_str(working_dir),
                run_as_view(run_as),
                stream_output,
            ),
        ),
{
    if let (Some(service), Some(paths)) = (docker_service, compose_paths) {
        let ids = match run_as {
            Some(a) => Some(ids_string(a.uid, a.gid)),
            None => None,
        };
        let args = match &ids {
            Some(u) => compose_run_args(compose_command, paths, working_dir, Some(u.as_str()), service, command),
            None => compose_run_args(compose_command, paths, working_dir, None, service, command),
        };
        let mut env = clone_env(env_vars);
        let ghost before = env@;
        env.push((String::from_str("_FORCE_EMPTY_ENV"), String::from_str("1")));
        assert(env_view(env@) =~= env_view(before).push(("_FORCE_EMPTY_ENV"@, "1"@)));
        let program = match compose_command {
            Some(DockerComposeCommand::DockerComposeLegacy) => String::from_str("docker-compose"),
            _ => String::from_str("docker"),
        };
        assert(program@ == compose_program(compose_command));
        proof {
            let us = match run_as_view(run_as) {
                Some(r) => Some(ids_text(r.1, r.2)),
                None => None,
            };
            let us2 = match ids {
                Some(u) => Some(u@),
                None => None,
            };
            assert(us == us2);
            assert(env_view(env@) =~= env_view(env_vars@) + seq![("_FORCE_EMPTY_ENV"@, "1"@)]);
            assert(strings_view(args@) == docker_args(
                compose_command,
                strings_view(paths@),
                opt_str(working_dir),
                us,
                service@,
                command@,
            ));
        }
        return Ok(
            Invocation {
                program,
                args,
                env,
                mode: RunMode::DockerCompose,
                command_text: String::from_str(command),
                stream_output,
            },
        );
    }
    let final_command = match run_as {
        Some(a) => {
            let mut s = String::from_str("sudo -u ");
            s.append(a.user.as_str());
            s.append(" ");
            s.append(command);
            s
        },
        None => String::from_str(command),
    };
    let parts = split_words(final_command.as_str());
    if parts.len() == 0 {
        return Err(AppError::Deployment(String::from_str("Empty command")));
    }
    let program = parts[0].clone();
    let mut args: Vec<String> = Vec::new();
    let mut i: usize = 1;
    let ghost ws = words(final_command@);
    while i < parts.len()
        invariant
            1 <= i <= parts@.len(),
            strings_view(parts@) == ws,
            strings_view(args@) == ws.subrange(1, i as int),
        decreases parts@.len() - i,
    {
        let ghost before = args@;
        args.push(parts[i].clone());
        assert(strings_view(args@) =~= strings_view(before).push(parts@[i as int]@));
        assert(ws.subrange(1, i + 1) =~= ws.subrange(1, i as int).push(ws[i as int]));
        i = i + 1;
    }
    assert(ws.subrange(1, parts@.len() as int) =~= ws.drop_first());
    let env = if docker_service.is_some() {
        let mut e = clone_env(env_vars);
        let ghost before = e@;
        e.push((String::from_str("_FORCE_EMPTY_ENV"), String::from_str("1")));
        assert(env_view(e@) =~= env_view(before) + seq![("_FORCE_EMPTY_ENV"@, "1"@)]);
        e
    } else {
        let mut e = clone_env(host_env);
        append_env(&mut e, env_vars);
        e
    };
    Ok(
        Invocation {
            program,
            args,
            env,
            mode: RunMode::Direct,
            command_text: final_command,
            stream_output: false,
        },
    )
}

} // verus!

verus! {

/// How a started process ended: whether it exited with success, and its
/// standard output and error as text.
#[derive(Debug, Clone)]
pub struct ProcessOutput {
    pub success: bool,
    pub stdout: String,
    pub stderr: String,
}

/// The output a step reports: standard output, or standard error when
/// there is no standard output.
pub open spec fn shown_output(stdout: Seq<char>, stderr: Seq<char>) -> Seq<char> {
    if stdout.len() > 0 {
        stdout
    } else {
        stderr
    }
}

/// What a finished process makes of its step: the output on success,
/// otherwise the message of the step's error.
pub open spec fn finish_spec(
    mode: RunMode,
    text: Seq<char>,
    success: bool,
    stdout: Seq<char>,
    stderr: Seq<char>,
) -> Result<Seq<char>, Seq<char>> {
    if success {
        Ok(shown_output(stdout, stderr))
    } else {
        match mode {
            RunMode::Direct => Err(
                "Command failed: "@ + text + "\nstdout: "@ + stdout + "\nstderr: "@ + stderr,
            ),
            RunMode::DockerCompose => Err(
                "Docker compose run failed: "@ + text + "\n"@ + shown_output(stdout, stderr),
            ),
            RunMode::Cargo => Err("cargo build failed: "@ + stderr),
        }
    }
}

/// The text result that answers an outcome: the same text, or a deployment
/// error with the same message.
pub open spec fn answers_text(r: AppResult<String>, o: Result<Seq<char>, Seq<char>>) -> bool {
    match o {
        Ok(t) => match r {
            Ok(s) => s@ == t,
            Err(_) => false,
        },
        Err(m) => is_deployment_error(r, m),
    }
}

/// A hexadecimal digit or a dash.
pub open spec fn is_hex_or_dash(c: char) -> bool {
    ('0' <= c && c <= '9') || ('a' <= c && c <= 'f') || ('A' <= c && c <= 'F') || c == '-'
}

/// A line that holds nothing but hexadecimal digits and dashes, such as
/// the container id Docker Compose prints.
pub open spec fn is_container_id_line(l: Seq<char>) -> bool {
    forall|i: int| 0 <= i < l.len() ==> is_hex_or_dash(#[trigger] l[i])
}

/// The lines of standard error that are logged: all but container ids.
pub open spec fn kept_lines(ls: Seq<Seq<char>>) -> Seq<Seq<char>>
    decreases ls.len(),
{
    if ls.len() == 0 {
        Seq::empty()
    } else if is_container_id_line(ls.last()) {
        kept_lines(ls.drop_last())
    } else {
        kept_lines(ls.drop_last()).push(ls.last())
    }
}

/// The lines logged one by one from a service run: every line of standard
/// output, then the kept lines of standard error; none when the
/// invocation does not stream.
pub open spec fn streamed_spec(stream: bool, stdout: Seq<char>, stderr: Seq<char>) -> Seq<Seq<char>> {
    if stream {
        lines_spec(stdout) + kept_lines(lines_spec(stderr))
    } else {
        Seq::empty()
    }
}

fn container_id_line(cs: &[char], a: usize, b: usize) -> (r: bool)
    requires
        a <= b <= cs@.len(),
    ensures
        r == is_container_id_line(cs@.subrange(a as int, b as int)),
{
    let mut i = a;
    while i < b
        invariant
            a <= i <= b <= cs@.len(),
            forall|j: int| a <= j < i ==> is_hex_or_dash(#[trigger] cs@[j]),
        decreases b - i,
    {
        let c = cs[i];
        if !(('0' <= c && c <= '9') || ('a' <= c && c <= 'f') || ('A' <= c && c <= 'F') || c == '-') {
            assert(cs@.subrange(a as int, b as int)[i - a] == c);
            return false;
        }
        i = i + 1;
    }
    assert forall|j: int| 0 <= j < b - a implies is_hex_or_dash(
        #[trigger] cs@.subrange(a as int, b as int)[j],
    ) by {
        assert(cs@.subrange(a as int, b as int)[j] == cs@[a + j]);
    }
    true
}

/// The text of each line of `s`, skipping container ids when `skip_ids`.
fn text_lines(s: &str, skip_ids: bool, out: &mut Vec<String>)
    ensures
        strings_view(final(out)@) == strings_view(old(out)@) + (if skip_ids {
            kept_lines(lines_spec(s@))
        } else {
            lines_spec(s@)
        }),
{
    let cs = chars_of(s);
    let ranges = line_ranges(cs.as_slice());
    let ghost ls = lines_spec(s@);
    let ghost base = strings_view(out@);
    let mut i: usize = 0;
    while i < ranges.len()
        invariant
            cs@ == s@,
            ls == lines_spec(s@),
            ranges@.len() == ls.len(),
            forall|t: int|
                0 <= t < ranges@.len() ==> (#[trigger] ranges@[t]).0 <= ranges@[t].1 <= cs@.len()
                    && cs@.subrange(ranges@[t].0 as int, ranges@[t].1 as int) == ls[t],
            i <= ranges@.len(),
            strings_view(out@) == base + (if skip_ids {
                kept_lines(ls.take(i as int))
            } else {
                ls.take(i as int)
            }),
        decreases ranges@.len() - i,
    {
        let (a, b) = ranges[i];
        assert(ls.take(i + 1).drop_last() =~= ls.take(i as int));
        assert(ls.take(i + 1).last() == ls[i as int]);
        let skip = skip_ids && container_id_line(cs.as_slice(), a, b);
        if !skip {
            let line = string_from_chars(&cs.as_slice()[a..b]);
            let ghost before = out@;
            out.push(line);
            assert(strings_view(out@) =~= strings_view(before).push(ls[i as int]));
        }
        assert(ls.take(i + 1) =~= ls.take(i as int).push(ls[i as int]));
        i = i + 1;
    }
    assert(ls.take(ranges@.len() as int) =~= ls);
}

impl Invocation {
    /// What the finished process makes of the step.
    pub fn finish(&self, output: &ProcessOutput) -> (r: AppResult<String>)
        ensures
            answers_text(
                r,
                finish_spec(
                    self.mode,
                    self.command_text@,
                    output.success,
                    output.stdout@,
                    output.stderr@,
                ),
            ),
    {
        let shown = if output.stdout.as_str().is_empty() {
            output.stderr.clone()
        } else {
            output.stdout.clone()
        };
        if output.success {
            return Ok(shown);
        }
        let m = match self.mode {
            RunMode::Direct => {
                let mut m = String::from_str("Command failed: ");
                m.append(self.command_text.as_str());
                m.append("\nstdout: ");
                m.append(output.stdout.as_str());
                m.append("\nstderr: ");
                m.append(output.stderr.as_str());
                m
            },
            RunMode::DockerCompose => {
                let mut m = String::from_str("Docker compose run failed: ");
                m.append(self.command_text.as_str());
                m.append("\n");
                m.append(shown.as_str());
                m
            },
            RunMode::Cargo => {
                let mut m = String::from_str("cargo build failed: ");
                m.append(output.stderr.as_str());
                m
            },
        };
        Err(AppError::Deployment(m))
    }

    /// The lines of a finished process that are logged one by one.
    pub fn streamed_lines(&self, output: &ProcessOutput) -> (r: Vec<String>)
        ensures
            strings_view(r@) == streamed_spec(self.stream_output, output.stdout@, output.stderr@),
    {
        let mut r: Vec<String> = Vec::new();
        if self.stream_output {
            text_lines(output.stdout.as_str(), false, &mut r);
            text_lines(output.stderr.as_str(), true, &mut r);
        }
        r
    }
}

} // verus!

verus! {

/// The invocation of `cargo build --release`.
pub fn cargo_release() -> (i: Invocation)
    ensures
        i.view() == (InvocationView {
            program: "cargo"@,
            args: seq!["build"@, "--release"@],
            env: Seq::empty(),
            mode: RunMode::Cargo,
            command_text: "cargo build --release"@,
            stream_output: false,
        }),
{
    let mut args: Vec<String> = Vec::new();
    push_arg(&mut args, "build");
    push_arg(&mut args, "--release");
    let env: Vec<(String, String)> = Vec::new();
    assert(strings_view(args@) =~= seq!["build"@, "--release"@]);
    assert(env_view(env@) =~= Seq::empty());
    Invocation {
        program: String::from_str("cargo"),
        args,
        env,
        mode: RunMode::Cargo,
        command_text: String::from_str("cargo build --release"),
        stream_output: false,
    }
}

/// How a step's command is started, if it runs anything: a shell command is
/// planned as `plan_command` plans it, with the project's variables only
/// when the command uses them.
pub open spec fn step_plan_spec(
    step: StepCommandView,
    project_env: Seq<(Seq<char>, Seq<char>)>,
    host_env: Seq<(Seq<char>, Seq<char>)>,
    paths: Option<Seq<Seq<char>>>,
    c: Option<DockerComposeCommand>,
    service: Option<Seq<char>>,
    working_dir: Option<Seq<char>>,
    run_as: Option<(Seq<char>, u32, u32)>,
    stream: bool,
) -> Option<Result<InvocationView, Seq<char>>> {
    match step {
        StepCommandView::Nothing => None,
        StepCommandView::CargoRelease => Some(
            Ok(
                InvocationView {
                    program: "cargo"@,
                    args: seq!["build"@, "--release"@],
                    env: Seq::empty(),
                    mode: RunMode::Cargo,
                    command_text: "cargo build --release"@,
                    stream_output: false,
                },
            ),
        ),
        StepCommandView::Shell(command, with_env) => Some(
            plan_spec(
                command,
                if with_env {
                    project_env
                } else {
                    Seq::empty()
                },
                host_env,
                paths,
                c,
                service,
                working_dir,
                run_as,
                stream,
            ),
        ),
    }
}

/// Plans the start of a step's command; `None` when the step runs nothing.
pub fn plan_step(
    step: &StepCommand,
    env_vars: &Vec<(String, String)>,
    host_env: &Vec<(String, String)>,
    compose_paths: Option<&Vec<String>>,
    compose_command: Option<DockerComposeCommand>,
    docker_service: Option<&str>,
    working_dir: Option<&str>,
    run_as: Option<&RunAs>,
    stream_output: bool,
) -> (r: Option<AppResult<Invocation>>)
    ensures
        match (
            r,
            step_plan_spec(
                step.view(),
                env_view(env_vars@),
                env_view(host_env@),
                opt_paths(compose_paths),
                compose_command,
                opt_str(docker_service),
                opt_str(working_dir),
                run_as_view(run_as),
                stream_output,
            ),
        ) {
            (None, None) => true,
            (Some(x), Some(p)) => answers_plan(x, p),
            _ => false,
        },
{
    match step {
        StepCommand::Nothing => None,
        StepCommand::CargoRelease => Some(Ok(cargo_release())),
        StepCommand::Shell { command, with_project_env } => {
            let none: Vec<(String, String)> = Vec::new();
            assert(env_view(none@) =~= Seq::empty());
            let env = if *with_project_env {
                env_vars
            } else {
                &none
            };
            Some(
                plan_command(
                    command.as_str(),
                    env,
                    host_env,
                    compose_paths,
                    compose_command,
                    docker_service,
                    working_dir,
                    run_as,
                    stream_output,
                ),
            )
        },
    }
}

/// The message of a number that would not parse, as `ParseIntError`
/// displays it.
pub open spec fn int_error_text(k: IntErrorKind) -> Seq<char> {
    match k {
        IntErrorKind::Empty => "cannot parse integer from empty string"@,
        IntErrorKind::InvalidDigit => "invalid digit found in string"@,
        IntErrorKind::PosOverflow => "number too large to fit in target type"@,
    }
}

fn int_error_string(k: IntErrorKind) -> (s: String)
    ensures
        s@ == int_error_text(k),
{
    match k {
        IntErrorKind::Empty => String::from_str("cannot parse integer from empty string"),
        IntErrorKind::InvalidDigit => String::from_str("invalid digit found in string"),
        IntErrorKind::PosOverflow => String::from_str("number too large to fit in target type"),
    }
}

/// A user or group id read from the output of `id -u` or `id -g`: the run
/// must have succeeded, and its output, trimmed, must be a number.
pub open spec fn user_id_spec(user: Seq<char>, which: Seq<char>, success: bool, stdout: Seq<char>) -> Result<
    u32,
    Seq<char>,
> {
    if !success {
        Err("User '"@ + user + "' does not exist on host"@)
    } else {
        match parse_u32_spec(trim_ws(stdout)) {
            Ok(n) => Ok(n),
            Err(k) => Err("Invalid "@ + which + " for user '"@ + user + "': "@ + int_error_text(k)),
        }
    }
}

/// Reads the id of `user` from the output of `id`; `which` names the id in
/// messages (`UID` or `GID`).
pub fn user_id_from_output(user: &str, which: &str, output: &ProcessOutput) -> (r: AppResult<u32>)
    ensures
        match user_id_spec(user@, which@, output.success, output.stdout@) {
            Ok(n) => r == Ok::<u32, AppError>(n),
            Err(m) => is_deployment_error(r, m),
        },
{
    if !output.success {
        let mut m = String::from_str("User '");
        m.append(user);
        m.append("' does not exist on host");
        return Err(AppError::Deployment(m));
    }
    let cs = chars_of(output.stdout.as_str());
    let (a, b) = trim_bounds(cs.as_slice());
    match parse_u32_chars(cs.as_slice(), a, b) {
        Ok(n) => Ok(n),
        Err(k) => {
            let mut m = String::from_str("Invalid ");
            m.append(which);
            m.append(" for user '");
            m.append(user);
            m.append("': ");
            let t = int_error_string(k);
            m.append(t.as_str());
            Err(AppError::Deployment(m))
        },
    }
}

/// The error of an `id` run that could not be started.
pub fn user_lookup_error(user: &str, which: &str, detail: &str) -> (e: AppError)
    ensures
        match e {
            AppError::Deployment(m) => m@ == "Failed to get "@ + which@ + " for user '"@ + user@
                + "': "@ + detail@,
            _ => false,
        },
{
    let mut m = String::from_str("Failed to get ");
    m.append(which);
    m.append(" for user '");
    m.append(user);
    m.append("': ");
    m.append(detail);
    AppError::Deployment(m)
}

} // verus!

verus! {

/// The value the environment pairs give a variable: that of its last pair.
pub open spec fn env_lookup(env: Seq<(Seq<char>, Seq<char>)>, name: Seq<char>) -> Option<Seq<char>>
    decreases env.len(),
{
    if env.len() == 0 {
        None
    } else if env.last().0 == name {
        Some(env.last().1)
    } else {
        env_lookup(env.drop_last(), name)
    }
}

/// Pairs appended later win: a variable the later pairs set has their
/// value, any other keeps the value of the earlier pairs.
pub proof fn lemma_env_lookup_append(a: Seq<(Seq<char>, Seq<char>)>, b: Seq<(Seq<char>, Seq<char>)>, name: Seq<char>)
    ensures
        env_lookup(a + b, name) == match env_lookup(b, name) {
            Some(v) => Some(v),
            None => env_lookup(a, name),
        },
    decreases b.len(),
{
    if b.len() == 0 {
        assert(a + b =~= a);
    } else {
        assert((a + b).drop_last() =~= a + b.drop_last());
        assert((a + b).last() == b.last());
        lemma_env_lookup_append(a, b.drop_last(), name);
    }
}

/// A command run directly, with no service named, sees the project's value
/// of every variable the project sets, and the host's value of every other
/// variable.
pub proof fn lemma_direct_env_prefers_project(
    command: Seq<char>,
    project_env: Seq<(Seq<char>, Seq<char>)>,
    host_env: Seq<(Seq<char>, Seq<char>)>,
    paths: Option<Seq<Seq<char>>>,
    c: Option<DockerComposeCommand>,
    service: Option<Seq<char>>,
    working_dir: Option<Seq<char>>,
    run_as: Option<(Seq<char>, u32, u32)>,
    stream: bool,
    name: Seq<char>,
)
    requires
        plan_spec(command, project_env, host_env, paths, c, service, working_dir, run_as, stream) is Ok,
        service is None,
    ensures
        env_lookup(
            plan_spec(command, project_env, host_env, paths, c, service, working_dir, run_as, stream)->Ok_0.env,
            name,
        ) == match env_lookup(project_env, name) {
            Some(v) => Some(v),
            None => env_lookup(host_env, name),
        },
{
    lemma_env_lookup_append(host_env, project_env, name);
}

/// A command for a named service, in the service or directly, sees no
/// variable of the host: every variable but the marker has the project's
/// value or none.
pub proof fn lemma_service_env_excludes_host(
    command: Seq<char>,
    project_env: Seq<(Seq<char>, Seq<char>)>,
    host_env: Seq<(Seq<char>, Seq<char>)>,
    paths: Option<Seq<Seq<char>>>,
    c: Option<DockerComposeCommand>,
    service: Option<Seq<char>>,
    working_dir: Option<Seq<char>>,
    run_as: Option<(Seq<char>, u32, u32)>,
    stream: bool,
    name: Seq<char>,
)
    requires
        plan_spec(command, project_env, host_env, paths, c, service, working_dir, run_as, stream) is Ok,
        service is Some,
        name != "_FORCE_EMPTY_ENV"@,
    ensures
        env_lookup(
            plan_spec(command, project_env, host_env, paths, c, service, working_dir, run_as, stream)->Ok_0.env,
            name,
        ) == env_lookup(project_env, name),
{
    let marker = seq![("_FORCE_EMPTY_ENV"@, "1"@)];
    lemma_env_lookup_append(project_env, marker, name);
    assert(marker.drop_last() =~= Seq::<(Seq<char>, Seq<char>)>::empty());
    assert(env_lookup(marker, name) == env_lookup(marker.drop_last(), name));
}

} // verus!

verus! {

/// The arguments of a restart of a compose service.
pub open spec fn restart_args(c: Option<DockerComposeCommand>, paths: Seq<Seq<char>>, service: Seq<char>) -> Seq<
    Seq<char>,
> {
    compose_lead(c) + file_args(paths) + seq!["restart"@, service]
}

/// The invocation that restarts a compose service after a deployment,
/// with the deployment's compose files (none: the project directory's
/// default file).
pub fn restart_invocation(
    service: &str,
    compose_paths: Option<&Vec<String>>,
    compose_command: Option<DockerComposeCommand>,
) -> (i: Invocation)
    ensures
        i.view() == (InvocationView {
            program: compose_program(compose_command),
            args: restart_args(
                compose_command,
                match opt_paths(compose_paths) {
                    Some(ps) => ps,
                    None => Seq::empty(),
                },
                service@,
            ),
            env: Seq::empty(),
            mode: RunMode::DockerCompose,
            command_text: "restart "@ + service@,
            stream_output: false,
        }),
{
    let none: Vec<String> = Vec::new();
    let paths = match compose_paths {
        Some(p) => p,
        None => &none,
    };
    assert(strings_view(none@) =~= Seq::<Seq<char>>::empty());
    let mut args = compose_file_args(compose_command, paths);
    push_arg(&mut args, "restart");
    push_arg(&mut args, service);
    let env: Vec<(String, String)> = Vec::new();
    assert(env_view(env@) =~= Seq::empty());
    let program = match compose_command {
        Some(DockerComposeCommand::DockerComposeLegacy) => String::from_str("docker-compose"),
        _ => String::from_str("docker"),
    };
    let mut text = String::from_str("restart ");
    text.append(service);
    proof {
        let ps = match opt_paths(compose_paths) {
            Some(ps) => ps,
            None => Seq::empty(),
        };
        assert(strings_view(paths@) == ps);
        assert(strings_view(args@) =~= restart_args(compose_command, ps, service@));
        assert(program@ == compose_program(compose_command));
    }
    Invocation { program, args, env, mode: RunMode::DockerCompose, command_text: text, stream_output: false }
}

} // verus!

verus! {

/// The install step of a project: a command of its own always wins and runs
/// with the project's environment; otherwise a Python project with a
/// `poetry.lock` is installed by Poetry whatever other files it has, one
/// with only a `requirements.txt` by pip inside `.venv` (created first when
/// it is missing), and one with neither installs nothing.
pub proof fn lemma_install_step_choice(t: ProjectType, custom: Option<Seq<char>>, f: ProjectFiles)
    ensures
        custom matches Some(c) ==> install_spec(t, custom, f) == StepCommandView::Shell(c, true),
        custom is None && t is Python && f.poetry_lock ==> install_spec(t, custom, f)
            == StepCommandView::Shell("poetry install"@, false),
        custom is None && t is Python && !f.poetry_lock && f.requirements_txt && f.venv_dir
            ==> install_spec(t, custom, f) == StepCommandView::Shell(
            ". .venv/bin/activate && pip install -r requirements.txt"@,
            false,
        ),
        custom is None && t is Python && !f.poetry_lock && f.requirements_txt && !f.venv_dir
            ==> install_spec(t, custom, f) == StepCommandView::Shell(
            "python3 -m venv .venv && . .venv/bin/activate && pip install -r requirements.txt"@,
            false,
        ),
        custom is None && t is Python && !f.poetry_lock && !f.requirements_txt ==> install_spec(
            t,
            custom,
            f,
        ) == StepCommandView::Nothing,
        custom is None && t is Nodejs && f.pnpm_lock ==> install_spec(t, custom, f)
            == StepCommandView::Shell("pnpm install"@, true),
        custom is None && t is Nodejs && !f.pnpm_lock && f.yarn_lock ==> install_spec(t, custom, f)
            == StepCommandView::Shell("yarn install"@, true),
        custom is None && t is Nodejs && !f.pnpm_lock && !f.yarn_lock ==> install_spec(t, custom, f)
            == StepCommandView::Shell("npm install"@, true),
        custom is None && t is Php ==> install_spec(t, custom, f) == StepCommandView::Shell(
            "composer install --no-dev"@,
            false,
        ),
        custom is None && (t is Rust || t is Custom) ==> install_spec(t, custom, f)
            == StepCommandView::Nothing,
{
}

/// With a `poetry.lock`, the install step of a Python project does not
/// depend on any other file of the project.
pub proof fn lemma_poetry_lock_decides(f: ProjectFiles, g: ProjectFiles)
    requires
        f.poetry_lock,
        g.poetry_lock,
    ensures
        install_spec(ProjectType::Python, None, f) == install_spec(ProjectType::Python, None, g),
        install_spec(ProjectType::Python, None, f) is Shell,
{
}

/// The build step of a project: a command of its own always wins and runs
/// with the project's environment; otherwise a Python project with a
/// `setup.py` builds a wheel from it whatever other files it has, one with
/// only a `pyproject.toml` runs `python -m build`, and one with neither
/// builds nothing; Node.js runs its build script, Rust a release build.
pub proof fn lemma_build_step_choice(t: ProjectType, custom: Option<Seq<char>>, f: ProjectFiles)
    ensures
        custom matches Some(c) ==> build_spec(t, custom, f) == StepCommandView::Shell(c, true),
        custom is None && t is Python && f.setup_py ==> build_spec(t, custom, f)
            == StepCommandView::Shell("python setup.py bdist_wheel"@, false),
        custom is None && t is Python && !f.setup_py && f.pyproject_toml ==> build_spec(
            t,
            custom,
            f,
        ) == StepCommandView::Shell("python -m build"@, false),
        custom is None && t is Python && !f.setup_py && !f.pyproject_toml ==> build_spec(
            t,
            custom,
            f,
        ) == StepCommandView::Nothing,
        custom is None && t is Nodejs ==> build_spec(t, custom, f) == StepCommandView::Shell(
            "npm run build"@,
            true,
        ),
        custom is None && t is Rust ==> build_spec(t, custom, f) == StepCommandView::CargoRelease,
        custom is None && (t is Php || t is Custom) ==> build_spec(t, custom, f)
            == StepCommandView::Nothing,
{
}

/// With a `setup.py`, the build step of a Python project does not depend on
/// any other file of the project.
pub proof fn lemma_setup_py_decides(f: ProjectFiles, g: ProjectFiles)
    requires
        f.setup_py,
        g.setup_py,
    ensures
        build_spec(ProjectType::Python, None, f) == build_spec(ProjectType::Python, None, g),
        build_spec(ProjectType::Python, None, f) is Shell,
{
}

} // verus!
