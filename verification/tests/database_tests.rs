use deploy_bot::config::{DockerComposePaths, ProjectType};
use deploy_bot::database::{from_record, log_from_row, log_time_text, status_columns, to_record};
use deploy_bot::deploy::manager::{Deployment, DeploymentStatus};
use deploy_bot::project_config::{ProjectConfig, RestartService};

fn deployment() -> Deployment {
    Deployment {
        id: "test-id-1".to_string(),
        project_name: "test-project".to_string(),
        project: ProjectConfig {
            repo_url: "https://github.com/test/test.git".to_string(),
            branch: "main".to_string(),
            project_type: ProjectType::Php,
            docker_service: Some("php".to_string()),
            working_dir: Some("/app".to_string()),
            install_command: Some("composer install".to_string()),
            build_command: Some("php artisan migrate".to_string()),
            extra_command: None,
            run_user: Some("www-data".to_string()),
            env: vec![("A".to_string(), "1".to_string())],
            restart_service: RestartService::Single("web".to_string()),
            docker_compose_path: DockerComposePaths::NotSet,
        },
        status: DeploymentStatus::Running,
        created_at: 1_704_067_200_000_000_000,
        started_at: Some(1_704_067_201_500_000_000),
        finished_at: None,
    }
}

#[test]
fn records_round_trip() {
    let d = deployment();
    let r = to_record(&d);
    assert_eq!(r.project_type, "php");
    assert_eq!(r.status, "running");
    assert_eq!(r.created_at, "2024-01-01T00:00:00+00:00");
    assert_eq!(r.started_at, Some("2024-01-01T00:00:01.500+00:00".to_string()));
    assert_eq!(r.finished_at, None);
    let back = from_record(&r, 7);
    assert_eq!(back.id, d.id);
    assert_eq!(back.project.project_type, ProjectType::Php);
    assert_eq!(back.status, DeploymentStatus::Running);
    assert_eq!(back.created_at, d.created_at);
    assert_eq!(back.started_at, d.started_at);
    assert_eq!(back.project.install_command, d.project.install_command);
    assert_eq!(back.project.run_user, None);
    assert!(back.project.env.is_empty());
}

#[test]
fn unreadable_values_fall_back() {
    let mut r = to_record(&deployment());
    r.created_at = "yesterday".to_string();
    r.started_at = Some("soon".to_string());
    r.status = "odd".to_string();
    r.project_type = "golang".to_string();
    let back = from_record(&r, 42);
    assert_eq!(back.created_at, 42);
    assert_eq!(back.started_at, None);
    assert_eq!(back.status, DeploymentStatus::Pending);
    assert_eq!(back.project.project_type, ProjectType::Custom);
}

#[test]
fn status_and_log_columns() {
    let (s, a, b) = status_columns(DeploymentStatus::Failed, None, Some(0));
    assert_eq!(s, "failed");
    assert_eq!(a, None);
    assert_eq!(b, Some("1970-01-01T00:00:00+00:00".to_string()));
    let l = log_from_row(3, "d".to_string(), "2024-01-01T08:00:00+08:00", "info".to_string(), "m".to_string(), 9);
    assert_eq!(l.timestamp, 1_704_067_200_000_000_000);
    let l = log_from_row(3, "d".to_string(), "bad", "info".to_string(), "m".to_string(), 9);
    assert_eq!(l.timestamp, 9);
    assert_eq!(log_time_text(0), "1970-01-01T00:00:00+00:00");
}
