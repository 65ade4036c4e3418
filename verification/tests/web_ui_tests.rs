use deploy_bot::config::{DockerComposePaths, ProjectType};
use deploy_bot::deploy::manager::{Deployment, DeploymentStatus};
use deploy_bot::project_config::{ProjectConfig, RestartService};
use deploy_bot::web_ui::{
    delete_redirect, deployment_row, deployments_fragment, paginate, retry_redirect, ListQuery,
    PAGE_SIZE,
};

fn project() -> ProjectConfig {
    ProjectConfig {
        repo_url: "https://github.com/test/test.git".to_string(),
        branch: "main".to_string(),
        project_type: ProjectType::Php,
        docker_service: None,
        working_dir: None,
        install_command: None,
        build_command: None,
        extra_command: None,
        run_user: None,
        env: vec![],
        restart_service: RestartService::NotSet,
        docker_compose_path: DockerComposePaths::NotSet,
    }
}

fn deployment(id: &str, status: DeploymentStatus, created_at: i64) -> Deployment {
    Deployment {
        id: id.to_string(),
        project_name: "site".to_string(),
        project: project(),
        status,
        created_at,
        started_at: None,
        finished_at: None,
    }
}

#[test]
fn page_numbers() {
    assert_eq!(ListQuery { page: None }.page_number(), 1);
    assert_eq!(ListQuery { page: Some(0) }.page_number(), 1);
    assert_eq!(ListQuery { page: Some(3) }.page_number(), 3);
    assert_eq!(PAGE_SIZE, 20);
}

#[test]
fn pages_of_a_list() {
    let all: Vec<Deployment> =
        (0..5).map(|i| deployment(&format!("d{i}"), DeploymentStatus::Success, i)).collect();
    let ids = |v: Vec<Deployment>| v.into_iter().map(|d| d.id).collect::<Vec<_>>();
    assert_eq!(ids(paginate(all.clone(), 1, 2)), vec!["d0", "d1"]);
    assert_eq!(ids(paginate(all.clone(), 3, 2)), vec!["d4"]);
    assert!(paginate(all.clone(), 4, 2).is_empty());
    assert_eq!(ids(paginate(all.clone(), 1, 20)).len(), 5);
    assert!(paginate(all, 2, 0).is_empty());
}

#[test]
fn rows_and_actions() {
    // 2024-01-01T00:00:00Z
    let t = 1_704_067_200_000_000_000i64;
    let row = deployment_row(&deployment("abc", DeploymentStatus::Pending, t));
    assert!(row.starts_with("<tr>\n            <td><a href=\"/deploy/abc\">abc</a></td>"));
    assert!(row.contains("<td>site</td>"));
    assert!(row.contains("<td>main</td>"));
    assert!(row.contains("<span class=\"status Pending\">Pending</span>"));
    assert!(row.contains("<td>2024-01-01 08:00:00</td>"));
    assert!(row.contains("action=\"/deploy/abc/delete\""));
    assert!(row.ends_with("</form></td>\n        </tr>"));
    let failed = deployment_row(&deployment("f", DeploymentStatus::Failed, t));
    assert!(failed.contains("action=\"/deploy/f/retry\""));
    let done = deployment_row(&deployment("s", DeploymentStatus::Success, t));
    assert!(done.contains("<td><a href=\"/deploy/s\">查看</a></td>"));
    assert!(!done.contains("<form"));
    let all = vec![deployment("a", DeploymentStatus::Success, t), deployment("b", DeploymentStatus::Running, t)];
    let fragment = deployments_fragment(&all);
    assert_eq!(fragment, format!("{}{}", deployment_row(&all[0]), deployment_row(&all[1])));
    assert_eq!(deployments_fragment(&vec![]), "");
}

#[test]
fn redirects() {
    assert_eq!(delete_redirect("x", true), "/");
    assert_eq!(delete_redirect("x", false), "/deploy/x");
    assert_eq!(retry_redirect("x", true), "/deploy/x");
    assert_eq!(retry_redirect("x", false), "/");
}
