use deploy_bot::config::{DockerComposePaths, ProjectType};
use deploy_bot::deploy::executor::{
    get_user_log_prefix, output_log_lines, DeploymentRun, RunEffect, RunStep, StepOutcome,
    OUTPUT_LOG_LIMIT,
};
use deploy_bot::deploy::manager::{Deployment, DeploymentStatus};
use deploy_bot::project_config::{ProjectConfig, RestartService};

fn project() -> ProjectConfig {
    ProjectConfig {
        repo_url: "https://github.com/test/repo.git".to_string(),
        branch: "main".to_string(),
        project_type: ProjectType::Nodejs,
        docker_service: Some("node".to_string()),
        working_dir: None,
        install_command: None,
        build_command: None,
        extra_command: None,
        run_user: None,
        env: vec![],
        restart_service: RestartService::NotSet,
        docker_compose_path: DockerComposePaths::NotSet,
    }
}

fn deployment(project: ProjectConfig) -> Deployment {
    Deployment {
        id: "test-id".to_string(),
        project_name: "test-project".to_string(),
        project,
        status: DeploymentStatus::Pending,
        created_at: 0,
        started_at: None,
        finished_at: None,
    }
}

fn messages(effects: &[RunEffect]) -> Vec<String> {
    effects
        .iter()
        .map(|e| match e {
            RunEffect::Log { level, message } => format!("{level}: {message}"),
            RunEffect::SetStatus(s) => format!("status: {}", s.to_string()),
        })
        .collect()
}

fn ok(s: &str) -> StepOutcome {
    StepOutcome::Succeeded(s.to_string())
}

#[test]
fn user_prefixes() {
    assert_eq!(get_user_log_prefix(Some("www-data")), "[www-data]");
    assert_eq!(get_user_log_prefix(None), "[default]");
}

#[test]
fn output_lines_are_cleaned_and_capped() {
    assert!(output_log_lines("").is_empty());
    assert_eq!(output_log_lines("\x1b[32mok\x1b[0m\r\nnext"), vec!["ok", "next"]);
    let long: String = (0..25).map(|i| format!("line {i}\n")).collect();
    let lines = output_log_lines(&long);
    assert_eq!(lines.len(), OUTPUT_LOG_LIMIT + 1);
    assert_eq!(lines[0], "line 0");
    assert_eq!(lines[19], "line 19");
    assert_eq!(lines[20], "... and 5 more lines");
}

#[test]
fn a_successful_run() {
    let mut p = project();
    p.run_user = Some("www-data".to_string());
    p.extra_command = Some("npm run migrate".to_string());
    let d = deployment(p);
    let (run, effects) =
        DeploymentRun::start(&d, &Some(vec!["./docker-compose.yaml".to_string()]));
    assert_eq!(
        messages(&effects),
        vec![
            "info: Starting deployment for project: test-project",
            "info: docker_compose_path: Some([\"./docker-compose.yaml\"]), docker_service: Some(\"node\")",
            "status: Running",
            "info: Status changed to: running",
            "info: [www-data]Pulling repository...",
        ]
    );
    assert!(matches!(run.step, RunStep::PullRepository));
    let (run, effects) = run.advance(&ok(""));
    assert_eq!(messages(&effects), vec!["info: Git pull successful", "info: [www-data]Installing dependencies..."]);
    let (run, effects) = run.advance(&ok("added 3 packages\n"));
    assert_eq!(
        messages(&effects),
        vec![
            "info: added 3 packages",
            "info: [www-data]Dependencies installed successfully",
            "info: [www-data]Running build step",
        ]
    );
    let (run, effects) = run.advance(&ok(""));
    assert_eq!(
        messages(&effects),
        vec!["info: [www-data]Build step completed", "info: [www-data]Running extra command: npm run migrate"]
    );
    assert!(matches!(run.step, RunStep::ExtraCommand(_)));
    let (run, effects) = run.advance(&ok(""));
    assert_eq!(
        messages(&effects),
        vec![
            "info: [www-data]Extra command completed successfully",
            "status: Success",
            "info: Deployment completed successfully",
        ]
    );
    assert!(matches!(run.step, RunStep::Finished));
    let (run, effects) = run.advance(&ok(""));
    assert!(effects.is_empty());
    assert!(matches!(run.step, RunStep::Finished));
}

#[test]
fn a_failed_step_ends_the_run() {
    let d = deployment(project());
    let (run, _) = DeploymentRun::start(&d, &None);
    let (run, _) = run.advance(&ok(""));
    let (run, effects) = run.advance(&StepOutcome::Failed("Deployment error: Empty command".to_string()));
    assert_eq!(
        messages(&effects),
        vec![
            "error: Dependency installation failed: Deployment error: Empty command",
            "status: Failed",
            "info: Deployment failed",
        ]
    );
    assert!(matches!(run.step, RunStep::Finished));
}

#[test]
fn restarts_follow_the_commands() {
    let mut p = project();
    p.restart_service = RestartService::Multiple(vec!["web".to_string(), "worker".to_string()]);
    let d = deployment(p);
    let (run, _) = DeploymentRun::start(&d, &None);
    assert_eq!(run.restart_services, vec!["web", "worker"]);
    let (run, _) = run.advance(&ok(""));
    let (run, _) = run.advance(&ok(""));
    let (run, effects) = run.advance(&ok(""));
    assert_eq!(messages(&effects), vec!["info: [default]Build step completed", "info: [default]Restarting service: web"]);
    assert!(matches!(run.step, RunStep::RestartService(0)));
    let (run, effects) = run.advance(&ok(""));
    assert_eq!(messages(&effects), vec!["info: [default]Service restarted: web", "info: [default]Restarting service: worker"]);
    assert!(matches!(run.step, RunStep::RestartService(1)));
    let (run, effects) = run.advance(&ok(""));
    assert_eq!(
        messages(&effects),
        vec!["info: [default]Service restarted: worker", "status: Success", "info: Deployment completed successfully"]
    );
    assert!(matches!(run.step, RunStep::Finished));

    let mut p = project();
    p.restart_service = RestartService::Single("web".to_string());
    let (run, _) = DeploymentRun::start(&deployment(p), &None);
    let (run, _) = run.advance(&ok(""));
    let (run, _) = run.advance(&ok(""));
    let (run, _) = run.advance(&ok(""));
    let (run, effects) = run.advance(&StepOutcome::Failed("no such service".to_string()));
    assert_eq!(
        messages(&effects),
        vec!["error: Service restart failed: no such service", "status: Failed", "info: Deployment failed"]
    );
    assert!(matches!(run.step, RunStep::Finished));
}

#[test]
fn test_execute_deployment_signature_has_docker_compose_path() {
    let mut p = project();
    p.docker_service = Some("node".to_string());
    let mut d = deployment(p);
    d.id = "test-id".to_string();
    d.project_name = "test-project".to_string();
    let (run, effects) = DeploymentRun::start(&d, &Some(vec!["./docker-compose.yaml".to_string()]));
    assert!(matches!(run.step, RunStep::PullRepository));
    assert_eq!(
        messages(&effects)[1],
        "info: docker_compose_path: Some([\"./docker-compose.yaml\"]), docker_service: Some(\"node\")"
    );
}

#[test]
fn test_execute_deployment_with_docker_compose_path_none() {
    let mut p = project();
    p.docker_service = None;
    let mut d = deployment(p);
    d.id = "test-id-2".to_string();
    d.project_name = "test-project-2".to_string();
    let (run, effects) = DeploymentRun::start(&d, &None);
    assert!(matches!(run.step, RunStep::PullRepository));
    assert_eq!(messages(&effects)[1], "info: docker_compose_path: None, docker_service: None");
    assert_eq!(messages(&effects)[4], "info: [default]Pulling repository...");
}
