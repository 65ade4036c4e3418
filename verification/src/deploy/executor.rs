//! The steps of one deployment run, as a state machine: the caller performs
//! each step (pull, install, build, extra command) and reports its outcome;
//! the machine answers with the log lines and status changes to record and
//! the next step.

use vstd::prelude::*;
use vstd::string::*;
use crate::config::clone_strings;
use crate::deploy::manager::{Deployment, DeploymentStatus};
use crate::text::{
    decimal, line_ranges, lines_spec, push_decimal, string_from_chars, strip_ansi,
    strip_ansi_codes, chars_of,
};

verus! {

/// The log prefix that names the user commands run as: `[user]`, or
/// `[default]` when they run as the service's own user.
pub open spec fn user_prefix_text(run_user: Option<Seq<char>>) -> Seq<char> {
    match run_user {
        Some(u) => seq!['['] + u + seq![']'],
        None => "[default]"@,
    }
}

/// Get user display string for logs (e.g., "[www-data]" or "[default]")
pub fn get_user_log_prefix(run_user: Option<&str>) -> (r: String)
    ensures
        r@ == user_prefix_text(
            match run_user {
                Some(u) => Some(u@),
                None => None,
            },
        ),
{
    match run_user {
        Some(user) => {
            let mut s = String::new();
            s.push('[');
            s.append(user);
            s.push(']');
            assert(s@ =~= seq!['['] + user@ + seq![']']);
            s
        },
        None => String::from_str("[default]"),
    }
}

/// How many output lines are copied into the deployment log.
pub const OUTPUT_LOG_LIMIT: usize = 20;

/// The log lines recorded for a step's output: none for empty output;
/// otherwise the first twenty lines of the output cleaned of escape codes,
/// and a count of the lines left out when there are more.
pub open spec fn output_log_spec(output: Seq<char>) -> Seq<Seq<char>> {
    if output.len() == 0 {
        Seq::empty()
    } else {
        let ls = lines_spec(strip_ansi(output));
        if ls.len() > OUTPUT_LOG_LIMIT {
            ls.take(OUTPUT_LOG_LIMIT as int).push(
                "... and "@ + decimal((ls.len() - OUTPUT_LOG_LIMIT) as nat) + " more lines"@,
            )
        } else {
            ls
        }
    }
}

/// The log lines recorded for a step's output.
pub fn output_log_lines(output: &str) -> (r: Vec<String>)
    ensures
        r@.len() == output_log_spec(output@).len(),
        forall|i: int| 0 <= i < r@.len() ==> (#[trigger] r@[i])@ == output_log_spec(output@)[i],
{
    let mut r: Vec<String> = Vec::new();
    if output.is_empty() {
        return r;
    }
    let clean = strip_ansi_codes(output);
    let cs = chars_of(clean.as_str());
    let s = cs.as_slice();
    let ranges = line_ranges(s);
    let ghost ls = lines_spec(strip_ansi(output@));
    let total = ranges.len();
    let shown = if total > OUTPUT_LOG_LIMIT { OUTPUT_LOG_LIMIT } else { total };
    let mut i: usize = 0;
    while i < shown
        invariant
            s@ == strip_ansi(output@),
            ls == lines_spec(strip_ansi(output@)),
            total == ranges@.len(),
            ranges@.len() == ls.len(),
            shown <= total,
            shown <= OUTPUT_LOG_LIMIT,
            i <= shown,
            forall|t: int|
                0 <= t < ranges@.len() ==> (#[trigger] ranges@[t]).0 <= ranges@[t].1 <= s@.len()
                    && s@.subrange(ranges@[t].0 as int, ranges@[t].1 as int) == ls[t],
            r@.len() == i,
            forall|t: int| 0 <= t < i ==> (#[trigger] r@[t])@ == ls[t],
        decreases shown - i,
    {
        let (a, b) = ranges[i];
        let line = string_from_chars(&s[a..b]);
        r.push(line);
        i = i + 1;
    }
    if total > OUTPUT_LOG_LIMIT {
        let mut m = String::from_str("... and ");
        push_decimal(&mut m, (total - OUTPUT_LOG_LIMIT) as u64);
        m.append(" more lines");
        r.push(m);
    }
    proof {
        let sp = output_log_spec(output@);
        if total > OUTPUT_LOG_LIMIT {
            assert forall|t: int| 0 <= t < r@.len() implies (#[trigger] r@[t])@ == sp[t] by {
                if t < OUTPUT_LOG_LIMIT {
                    assert(sp[t] == ls[t]);
                }
            }
        }
    }
    r
}

} // verus!

verus! {

/// One thing a deployment run records: a log line (level and message) or a
/// status change.
#[derive(Debug, Clone)]
pub enum RunEffect {
    Log { level: String, message: String },
    SetStatus(DeploymentStatus),
}

/// A recorded effect, with texts as character sequences.
pub enum EffectView {
    Log(Seq<char>, Seq<char>),
    SetStatus(DeploymentStatus),
}

impl RunEffect {
    pub open spec fn view(self) -> EffectView {
        match self {
            RunEffect::Log { level, message } => EffectView::Log(level@, message@),
            RunEffect::SetStatus(s) => EffectView::SetStatus(s),
        }
    }
}

/// The effects recorded, as views.
pub open spec fn effects_view(v: Seq<RunEffect>) -> Seq<EffectView> {
    v.map_values(|e: RunEffect| e.view())
}

/// An info-level log line.
pub open spec fn info(m: Seq<char>) -> EffectView {
    EffectView::Log("info"@, m)
}

/// An error-level log line.
pub open spec fn error(m: Seq<char>) -> EffectView {
    EffectView::Log("error"@, m)
}

/// The outside work a run waits for next.
#[derive(Debug, Clone)]
pub enum RunStep {
    /// Clone or update the repository.
    PullRepository,
    /// Install the project's dependencies.
    InstallDependencies,
    /// Build the project.
    Build,
    /// Run the project's extra command.
    ExtraCommand(String),
    /// Restart the compose service at this position of the run's list.
    RestartService(usize),
    /// Nothing: the run is over.
    Finished,
}

/// How far from the end of a run that restarts `n` services a step stands;
/// every transition lowers it.
pub open spec fn step_rank(n: nat, s: RunStep) -> nat {
    match s {
        RunStep::PullRepository => n + 4,
        RunStep::InstallDependencies => n + 3,
        RunStep::Build => n + 2,
        RunStep::ExtraCommand(_) => n + 1,
        RunStep::RestartService(i) => if i < n {
            (n - i) as nat
        } else {
            1
        },
        RunStep::Finished => 0,
    }
}

/// The outcome of a step: its output, or the text of its error.
#[derive(Debug, Clone)]
pub enum StepOutcome {
    Succeeded(String),
    Failed(String),
}

/// A deployment run between two steps.
#[derive(Debug, Clone)]
pub struct DeploymentRun {
    pub project_name: String,
    /// `[user]` when commands run as another user, else empty.
    pub user_prefix: String,
    pub extra_command: Option<String>,
    /// Compose services restarted, in order, once the other steps are done.
    pub restart_services: Vec<String>,
    pub step: RunStep,
}

/// The `Debug` text of the compose file list handed to a run.
pub uninterp spec fn paths_debug_text(paths: Option<Seq<Seq<char>>>) -> Seq<char>;

/// The `Debug` text of an optional string.
pub uninterp spec fn option_debug_text(value: Option<Seq<char>>) -> Seq<char>;

/// The compose file list, as plain values.
pub open spec fn paths_view(paths: Option<Vec<String>>) -> Option<Seq<Seq<char>>> {
    match paths {
        Some(v) => Some(v@.map_values(|s: String| s@)),
        None => None,
    }
}

/// An optional string, as a plain value.
pub open spec fn opt_view(value: Option<String>) -> Option<Seq<char>> {
    match value {
        Some(s) => Some(s@),
        None => None,
    }
}

/// Formats the compose file list with `{:?}`.
///
/// Trusted: the standard `Debug` formatting of `Option<Vec<String>>`; the
/// text is named by `paths_debug_text`.
#[verifier::external_body]
fn debug_paths(paths: &Option<Vec<String>>) -> (s: String)
    ensures
        s@ == paths_debug_text(paths_view(*paths)),
{
    format!("{:?}", paths)
}

/// Formats an optional string with `{:?}`.
///
/// Trusted: the standard `Debug` formatting of `Option<String>`; the text is
/// named by `option_debug_text`.
#[verifier::external_body]
fn debug_option(value: &Option<String>) -> (s: String)
    ensures
        s@ == option_debug_text(opt_view(*value)),
{
    format!("{:?}", value)
}

/// The effects that open a run.
pub open spec fn start_effects(d: Deployment, paths: Option<Vec<String>>) -> Seq<EffectView> {
    seq![
        info("Starting deployment for project: "@ + d.project_name@),
        info(
            "docker_compose_path: "@ + paths_debug_text(paths_view(paths)) + ", docker_service: "@
                + option_debug_text(opt_view(d.project.docker_service)),
        ),
        EffectView::SetStatus(DeploymentStatus::Running),
        info("Status changed to: running"@),
        info(user_prefix_text(opt_view(d.project.run_user)) + "Pulling repository..."@),
    ]
}

/// The effects that end a run after a failed step.
pub open spec fn failure_effects(what: Seq<char>, err: Seq<char>) -> Seq<EffectView> {
    seq![
        error(what + " failed: "@ + err),
        EffectView::SetStatus(DeploymentStatus::Failed),
        info("Deployment failed"@),
    ]
}

/// The effects that end a successful run.
pub open spec fn success_effects() -> Seq<EffectView> {
    seq![EffectView::SetStatus(DeploymentStatus::Success), info("Deployment completed successfully"@)]
}

/// How a run goes on after its last command: restarting the first service
/// when it restarts any, otherwise ending with success.
pub open spec fn after_commands(run: DeploymentRun) -> (Seq<EffectView>, RunStep) {
    if run.restart_services@.len() > 0 {
        (
            seq![info(run.user_prefix@ + "Restarting service: "@ + run.restart_services@[0]@)],
            RunStep::RestartService(0),
        )
    } else {
        (success_effects(), RunStep::Finished)
    }
}

/// The log lines of a step's output, as effects.
pub open spec fn output_effects(output: Seq<char>) -> Seq<EffectView> {
    output_log_spec(output).map_values(|m: Seq<char>| info(m))
}

/// What a run records, and where it goes, when a step reports its outcome.
pub open spec fn advance_spec(run: DeploymentRun, outcome: StepOutcome) -> (Seq<EffectView>, RunStep) {
    let p = run.user_prefix@;
    match (run.step, outcome) {
        (RunStep::PullRepository, StepOutcome::Succeeded(_)) => (
            seq![info("Git pull successful"@), info(p + "Installing dependencies..."@)],
            RunStep::InstallDependencies,
        ),
        (RunStep::PullRepository, StepOutcome::Failed(e)) => (
            failure_effects("Git pull"@, e@),
            RunStep::Finished,
        ),
        (RunStep::InstallDependencies, StepOutcome::Succeeded(out)) => (
            output_effects(out@) + seq![
                info(p + "Dependencies installed successfully"@),
                info(p + "Running build step"@),
            ],
            RunStep::Build,
        ),
        (RunStep::InstallDependencies, StepOutcome::Failed(e)) => (
            failure_effects("Dependency installation"@, e@),
            RunStep::Finished,
        ),
        (RunStep::Build, StepOutcome::Succeeded(out)) => match run.extra_command {
            Some(cmd) => (
                output_effects(out@) + seq![
                    info(p + "Build step completed"@),
                    info(p + "Running extra command: "@ + cmd@),
                ],
                RunStep::ExtraCommand(cmd),
            ),
            None => (
                output_effects(out@) + seq![info(p + "Build step completed"@)] + after_commands(
                    run,
                ).0,
                after_commands(run).1,
            ),
        },
        (RunStep::Build, StepOutcome::Failed(e)) => (
            failure_effects("Build step"@, e@),
            RunStep::Finished,
        ),
        (RunStep::ExtraCommand(_), StepOutcome::Succeeded(out)) => (
            output_effects(out@) + seq![info(p + "Extra command completed successfully"@)]
                + after_commands(run).0,
            after_commands(run).1,
        ),
        (RunStep::ExtraCommand(_), StepOutcome::Failed(e)) => (
            failure_effects("Extra command"@, e@),
            RunStep::Finished,
        ),
        (RunStep::RestartService(i), StepOutcome::Succeeded(out)) => {
            let svcs = run.restart_services@;
            if i >= svcs.len() {
                (Seq::empty(), RunStep::Finished)
            } else if i + 1 < svcs.len() {
                (
                    output_effects(out@) + seq![
                        info(p + "Service restarted: "@ + svcs[i as int]@),
                        info(p + "Restarting service: "@ + svcs[i + 1]@),
                    ],
                    RunStep::RestartService((i + 1) as usize),
                )
            } else {
                (
                    output_effects(out@) + seq![info(p + "Service restarted: "@ + svcs[i as int]@)]
                        + success_effects(),
                    RunStep::Finished,
                )
            }
        },
        (RunStep::RestartService(_), StepOutcome::Failed(e)) => (
            failure_effects("Service restart"@, e@),
            RunStep::Finished,
        ),
        (RunStep::Finished, _) => (Seq::empty(), RunStep::Finished),
    }
}

/// An info-level log effect.
fn info_effect(message: String) -> (e: RunEffect)
    ensures
        e.view() == info(message@),
{
    RunEffect::Log { level: String::from_str("info"), message }
}

/// `a` followed by `b`.
fn join(a: &str, b: &str) -> (s: String)
    ensures
        s@ == a@ + b@,
{
    let mut s = String::from_str(a);
    s.append(b);
    s
}

/// Appends the log lines of a step's output.
fn push_output_effects(effects: &mut Vec<RunEffect>, output: &str)
    ensures
        effects_view(final(effects)@) == effects_view(old(effects)@) + output_effects(output@),
{
    let lines = output_log_lines(output);
    let mut i: usize = 0;
    let ghost base = effects_view(old(effects)@);
    while i < lines.len()
        invariant
            i <= lines@.len(),
            lines@.len() == output_log_spec(output@).len(),
            forall|t: int| 0 <= t < lines@.len() ==> (#[trigger] lines@[t])@ == output_log_spec(
                output@,
            )[t],
            effects_view(effects@) == base + output_effects(output@).take(i as int),
        decreases lines@.len() - i,
    {
        let ghost before = effects@;
        effects.push(info_effect(lines[i].clone()));
        proof {
            assert(effects_view(effects@) =~= effects_view(before).push(info(lines@[i as int]@)));
            assert(output_effects(output@).take(i + 1) =~= output_effects(output@).take(
                i as int,
            ).push(info(output_log_spec(output@)[i as int])));
        }
        i = i + 1;
    }
    assert(output_effects(output@).take(lines@.len() as int) =~= output_effects(output@));
}

/// Appends the effects of a failed step.
fn push_failure_effects(effects: &mut Vec<RunEffect>, what: &str, err: &str)
    ensures
        effects_view(final(effects)@) == effects_view(old(effects)@) + failure_effects(what@, err@),
{
    let mut m = String::from_str(what);
    m.append(" failed: ");
    m.append(err);
    let ghost before = effects@;
    effects.push(RunEffect::Log { level: String::from_str("error"), message: m });
    effects.push(RunEffect::SetStatus(DeploymentStatus::Failed));
    effects.push(info_effect(String::from_str("Deployment failed")));
    assert(effects_view(effects@) =~= effects_view(before) + failure_effects(what@, err@));
}

/// Appends the effects of a successful end.
fn push_success_effects(effects: &mut Vec<RunEffect>)
    ensures
        effects_view(final(effects)@) == effects_view(old(effects)@) + success_effects(),
{
    let ghost before = effects@;
    effects.push(RunEffect::SetStatus(DeploymentStatus::Success));
    effects.push(info_effect(String::from_str("Deployment completed successfully")));
    assert(effects_view(effects@) =~= effects_view(before) + success_effects());
}

impl DeploymentRun {
    /// Appends what follows the last command and gives the next step.
    fn push_after_commands(&self, effects: &mut Vec<RunEffect>) -> (next: RunStep)
        ensures
            effects_view(final(effects)@) == effects_view(old(effects)@) + after_commands(*self).0,
            next == after_commands(*self).1,
    {
        if self.restart_services.len() > 0 {
            let mut m = String::from_str(self.user_prefix.as_str());
            m.append("Restarting service: ");
            m.append(self.restart_services[0].as_str());
            let ghost before = effects@;
            effects.push(info_effect(m));
            assert(effects_view(effects@) =~= effects_view(before) + after_commands(*self).0);
            RunStep::RestartService(0)
        } else {
            push_success_effects(effects);
            RunStep::Finished
        }
    }

    /// Opens the run of a deployment that uses the given compose files:
    /// the opening log lines, the change to `Running`, and the pull as the
    /// first step.
    pub fn start(deployment: &Deployment, compose_paths: &Option<Vec<String>>) -> (r: (
        DeploymentRun,
        Vec<RunEffect>,
    ))
        ensures
            effects_view(r.1@) == start_effects(*deployment, *compose_paths),
            r.0.step is PullRepository,
            r.0.project_name == deployment.project_name,
            r.0.user_prefix@ == user_prefix_text(opt_view(deployment.project.run_user)),
            r.0.extra_command == deployment.project.extra_command,
            r.0.restart_services@ == deployment.project.restart_service.service_list(),
    {
        let mut effects: Vec<RunEffect> = Vec::new();
        effects.push(
            info_effect(join("Starting deployment for project: ", deployment.project_name.as_str())),
        );
        let paths_text = debug_paths(compose_paths);
        let service_text = debug_option(&deployment.project.docker_service);
        let mut m = String::from_str("docker_compose_path: ");
        m.append(paths_text.as_str());
        m.append(", docker_service: ");
        m.append(service_text.as_str());
        effects.push(info_effect(m));
        effects.push(RunEffect::SetStatus(DeploymentStatus::Running));
        effects.push(info_effect(String::from_str("Status changed to: running")));
        let user_prefix = match &deployment.project.run_user {
            Some(u) => get_user_log_prefix(Some(u.as_str())),
            None => get_user_log_prefix(None),
        };
        effects.push(info_effect(join(user_prefix.as_str(), "Pulling repository...")));
        assert(effects_view(effects@) =~= start_effects(*deployment, *compose_paths));
        let run = DeploymentRun {
            project_name: deployment.project_name.clone(),
            user_prefix,
            extra_command: deployment.project.extra_command.clone(),
            restart_services: deployment.project.restart_service.to_services(),
            step: RunStep::PullRepository,
        };
        (run, effects)
    }

    /// Takes the outcome of the current step: the effects to record and the
    /// run at its next step.
    pub fn advance(&self, outcome: &StepOutcome) -> (r: (DeploymentRun, Vec<RunEffect>))
        ensures
            effects_view(r.1@) == advance_spec(*self, *outcome).0,
            r.0.step == advance_spec(*self, *outcome).1,
            r.0.project_name == self.project_name,
            r.0.user_prefix == self.user_prefix,
            r.0.extra_command == self.extra_command,
            r.0.restart_services@ == self.restart_services@,
    {
        let mut effects: Vec<RunEffect> = Vec::new();
        let p = self.user_prefix.as_str();
        let ghost e0 = effects@;
        assert(effects_view(e0) =~= Seq::<EffectView>::empty());
        let next = match (&self.step, outcome) {
            (RunStep::PullRepository, StepOutcome::Succeeded(_)) => {
                effects.push(info_effect(String::from_str("Git pull successful")));
                effects.push(info_effect(join(p, "Installing dependencies...")));
                RunStep::InstallDependencies
            },
            (RunStep::PullRepository, StepOutcome::Failed(e)) => {
                push_failure_effects(&mut effects, "Git pull", e.as_str());
                RunStep::Finished
            },
            (RunStep::InstallDependencies, StepOutcome::Succeeded(out)) => {
                push_output_effects(&mut effects, out.as_str());
                effects.push(info_effect(join(p, "Dependencies installed successfully")));
                effects.push(info_effect(join(p, "Running build step")));
                RunStep::Build
            },
            (RunStep::InstallDependencies, StepOutcome::Failed(e)) => {
                push_failure_effects(&mut effects, "Dependency installation", e.as_str());
                RunStep::Finished
            },
            (RunStep::Build, StepOutcome::Succeeded(out)) => {
                push_output_effects(&mut effects, out.as_str());
                effects.push(info_effect(join(p, "Build step completed")));
                match &self.extra_command {
                    Some(cmd) => {
                        let mut m = String::from_str(p);
                        m.append("Running extra command: ");
                        m.append(cmd.as_str());
                        effects.push(info_effect(m));
                        RunStep::ExtraCommand(cmd.clone())
                    },
                    None => self.push_after_commands(&mut effects),
                }
            },
            (RunStep::Build, StepOutcome::Failed(e)) => {
                push_failure_effects(&mut effects, "Build step", e.as_str());
                RunStep::Finished
            },
            (RunStep::ExtraCommand(_), StepOutcome::Succeeded(out)) => {
                push_output_effects(&mut effects, out.as_str());
                effects.push(info_effect(join(p, "Extra command completed successfully")));
                self.push_after_commands(&mut effects)
            },
            (RunStep::ExtraCommand(_), StepOutcome::Failed(e)) => {
                push_failure_effects(&mut effects, "Extra command", e.as_str());
                RunStep::Finished
            },
            (RunStep::RestartService(i), StepOutcome::Succeeded(out)) => {
                let i = *i;
                let n = self.restart_services.len();
                if i >= n {
                    RunStep::Finished
                } else {
                    push_output_effects(&mut effects, out.as_str());
                    let mut m = String::from_str(p);
                    m.append("Service restarted: ");
                    m.append(self.restart_services[i].as_str());
                    effects.push(info_effect(m));
                    if i + 1 < n {
                        let mut m2 = String::from_str(p);
                        m2.append("Restarting service: ");
                        m2.append(self.restart_services[i + 1].as_str());
                        effects.push(info_effect(m2));
                        RunStep::RestartService(i + 1)
                    } else {
                        push_success_effects(&mut effects);
                        RunStep::Finished
                    }
                }
            },
            (RunStep::RestartService(_), StepOutcome::Failed(e)) => {
                push_failure_effects(&mut effects, "Service restart", e.as_str());
                RunStep::Finished
            },
            (RunStep::Finished, _) => RunStep::Finished,
        };
        assert(effects_view(effects@) =~= advance_spec(*self, *outcome).0);
        let run = DeploymentRun {
            project_name: self.project_name.clone(),
            user_prefix: self.user_prefix.clone(),
            extra_command: self.extra_command.clone(),
            restart_services: clone_strings(&self.restart_services),
            step: next,
        };
        (run, effects)
    }
}

} // verus!

verus! {

/// Every reported outcome moves a run closer to its end: the next step
/// ranks lower, so a run takes at most four outcomes more than the
/// services it restarts.
pub proof fn lemma_advance_progresses(run: DeploymentRun, outcome: StepOutcome)
    requires
        !(run.step is Finished),
    ensures
        step_rank(run.restart_services@.len(), advance_spec(run, outcome).1) < step_rank(
            run.restart_services@.len(),
            run.step,
        ),
{
    let n = run.restart_services@.len();
    if let RunStep::RestartService(i) = run.step {
        if i + 1 < n {
            assert(run.restart_services.len() == run.restart_services@.len());
            assert(((i + 1) as usize) as int == i + 1);
        }
    }
}

/// A failed step ends the run: the error is logged, the deployment is marked
/// failed, and no later step runs.
pub proof fn lemma_failure_ends_run(run: DeploymentRun, err: String)
    requires
        !(run.step is Finished),
    ensures
        advance_spec(run, StepOutcome::Failed(err)).1 is Finished,
        advance_spec(run, StepOutcome::Failed(err)).0.len() == 3,
        advance_spec(run, StepOutcome::Failed(err)).0[1] == EffectView::SetStatus(
            DeploymentStatus::Failed,
        ),
        advance_spec(run, StepOutcome::Failed(err)).0.last() == info("Deployment failed"@),
{
}

/// The status changes a step's outcome records.
pub open spec fn status_changes(effects: Seq<EffectView>) -> Seq<DeploymentStatus>
    decreases effects.len(),
{
    if effects.len() == 0 {
        Seq::empty()
    } else {
        let rest = status_changes(effects.drop_last());
        match effects.last() {
            EffectView::SetStatus(s) => rest.push(s),
            _ => rest,
        }
    }
}

proof fn lemma_status_changes_append(a: Seq<EffectView>, b: Seq<EffectView>)
    ensures
        status_changes(a + b) == status_changes(a) + status_changes(b),
    decreases b.len(),
{
    if b.len() == 0 {
        assert(a + b =~= a);
    } else {
        assert((a + b).drop_last() =~= a + b.drop_last());
        lemma_status_changes_append(a, b.drop_last());
    }
}

proof fn lemma_output_effects_no_status(output: Seq<char>)
    ensures
        status_changes(output_effects(output)) == Seq::<DeploymentStatus>::empty(),
{
    let ls = output_log_spec(output);
    let es = output_effects(output);
    assert forall|k: nat| k <= es.len() implies status_changes(#[trigger] es.take(k as int))
        == Seq::<DeploymentStatus>::empty() by {
        lemma_take_no_status(es, k);
    }
    assert(es.take(es.len() as int) =~= es);
}

proof fn lemma_success_effects_status()
    ensures
        status_changes(success_effects()) == seq![DeploymentStatus::Success],
{
    let e = success_effects();
    assert(e.drop_last() =~= seq![EffectView::SetStatus(DeploymentStatus::Success)]);
    assert(e.drop_last().drop_last() =~= Seq::<EffectView>::empty());
    assert(status_changes(e.drop_last().drop_last()) =~= Seq::<DeploymentStatus>::empty());
    assert(e.drop_last().last() == EffectView::SetStatus(DeploymentStatus::Success));
    assert(status_changes(e.drop_last()) =~= seq![DeploymentStatus::Success]);
}

proof fn lemma_logs_have_no_status(es: Seq<EffectView>)
    requires
        forall|i: int| 0 <= i < es.len() ==> (#[trigger] es[i]) is Log,
    ensures
        status_changes(es) == Seq::<DeploymentStatus>::empty(),
{
    lemma_take_no_status(es, es.len());
    assert(es.take(es.len() as int) =~= es);
}

proof fn lemma_take_no_status(es: Seq<EffectView>, k: nat)
    requires
        k <= es.len(),
        forall|i: int| 0 <= i < es.len() ==> (#[trigger] es[i]) is Log,
    ensures
        status_changes(es.take(k as int)) == Seq::<DeploymentStatus>::empty(),
    decreases k,
{
    if k > 0 {
        assert(es.take(k as int).drop_last() =~= es.take(k - 1));
        lemma_take_no_status(es, (k - 1) as nat);
    }
}

/// A step that succeeds changes the status only when it is the last step,
/// and then to `Success`.
pub proof fn lemma_success_status(run: DeploymentRun, output: String)
    requires
        !(run.step is Finished),
        run.step matches RunStep::RestartService(i) ==> i < run.restart_services@.len(),
    ensures
        advance_spec(run, StepOutcome::Succeeded(output)).1 is Finished ==> status_changes(
            advance_spec(run, StepOutcome::Succeeded(output)).0,
        ) == seq![DeploymentStatus::Success],
        !(advance_spec(run, StepOutcome::Succeeded(output)).1 is Finished) ==> status_changes(
            advance_spec(run, StepOutcome::Succeeded(output)).0,
        ) == Seq::<DeploymentStatus>::empty(),
{
    let p = run.user_prefix@;
    let o = output@;
    let svcs = run.restart_services@;
    lemma_output_effects_no_status(o);
    lemma_success_effects_status();
    if svcs.len() > 0 {
        lemma_logs_have_no_status(after_commands(run).0);
    }
    match run.step {
        RunStep::PullRepository => {
            let e = seq![info("Git pull successful"@), info(p + "Installing dependencies..."@)];
            lemma_logs_have_no_status(e);
        },
        RunStep::InstallDependencies => {
            let t = seq![info(p + "Dependencies installed successfully"@), info(p + "Running build step"@)];
            lemma_status_changes_append(output_effects(o), t);
            lemma_logs_have_no_status(t);
        },
        RunStep::Build => {
            match run.extra_command {
                Some(cmd) => {
                    let t = seq![info(p + "Build step completed"@), info(p + "Running extra command: "@ + cmd@)];
                    lemma_status_changes_append(output_effects(o), t);
                    lemma_logs_have_no_status(t);
                },
                None => {
                    let t = seq![info(p + "Build step completed"@)];
                    lemma_status_changes_append(output_effects(o), t);
                    lemma_status_changes_append(output_effects(o) + t, after_commands(run).0);
                    lemma_logs_have_no_status(t);
                },
            }
        },
        RunStep::ExtraCommand(_) => {
            let t = seq![info(p + "Extra command completed successfully"@)];
            lemma_status_changes_append(output_effects(o), t);
            lemma_status_changes_append(output_effects(o) + t, after_commands(run).0);
            lemma_logs_have_no_status(t);
        },
        RunStep::RestartService(i) => {
            if i + 1 < svcs.len() {
                let t = seq![
                    info(p + "Service restarted: "@ + svcs[i as int]@),
                    info(p + "Restarting service: "@ + svcs[i + 1]@),
                ];
                lemma_status_changes_append(output_effects(o), t);
                lemma_logs_have_no_status(t);
            } else {
                let t = seq![info(p + "Service restarted: "@ + svcs[i as int]@)];
                lemma_status_changes_append(output_effects(o), t);
                lemma_status_changes_append(output_effects(o) + t, success_effects());
                lemma_logs_have_no_status(t);
            }
        },
        RunStep::Finished => {},
    }
}

/// After the last command, every configured service is restarted, first
/// to last, before the run ends with success.
pub proof fn lemma_restarts_follow_in_order(run: DeploymentRun, i: usize, output: String)
    requires
        run.step == RunStep::RestartService(i),
        i < run.restart_services@.len(),
    ensures
        i + 1 < run.restart_services@.len() ==> advance_spec(run, StepOutcome::Succeeded(output)).1
            == RunStep::RestartService((i + 1) as usize),
        i + 1 == run.restart_services@.len() ==> advance_spec(
            run,
            StepOutcome::Succeeded(output),
        ).1 is Finished,
{
}

} // verus!

verus! {

/// At most twenty lines of a step's output are logged; when the output has
/// more, one more line says how many were left out.
pub proof fn lemma_output_log_bounded(output: Seq<char>)
    ensures
        output_log_spec(output).len() <= OUTPUT_LOG_LIMIT + 1,
        lines_spec(strip_ansi(output)).len() > OUTPUT_LOG_LIMIT && output.len() > 0
            ==> output_log_spec(output).last() == "... and "@ + decimal(
            (lines_spec(strip_ansi(output)).len() - OUTPUT_LOG_LIMIT) as nat,
        ) + " more lines"@,
{
}

} // verus!
