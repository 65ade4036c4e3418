use std::collections::VecDeque;

use deploy_bot::config::{DockerComposePaths, ProjectType};
use deploy_bot::deploy::manager::{
    local_time, merge_deployments, nanos_from_reading, now_nanos, stored_deletable, sort_by_created_desc, status_times_unqueued,
    Deployment, DeploymentQueue, DeploymentStatus,
};
use deploy_bot::project_config::{ProjectConfig, RestartService};

fn create_test_project_config() -> ProjectConfig {
    ProjectConfig {
        repo_url: "https://github.com/test/test.git".to_string(),
        branch: "main".to_string(),
        project_type: ProjectType::Php,
        docker_service: Some("php".to_string()),
        working_dir: Some("/app".to_string()),
        install_command: Some("composer install".to_string()),
        build_command: Some("php artisan migrate".to_string()),
        extra_command: None,
        run_user: None,
        env: vec![],
        restart_service: RestartService::NotSet,
        docker_compose_path: DockerComposePaths::NotSet,
    }
}

fn deployment(id: &str, status: DeploymentStatus, created_at: i64) -> Deployment {
    Deployment {
        id: id.to_string(),
        project_name: "p".to_string(),
        project: create_test_project_config(),
        status,
        created_at,
        started_at: None,
        finished_at: None,
    }
}

#[test]
fn status_names() {
    let all = [
        (DeploymentStatus::Pending, "Pending", "pending"),
        (DeploymentStatus::Running, "Running", "running"),
        (DeploymentStatus::Success, "Success", "success"),
        (DeploymentStatus::Failed, "Failed", "failed"),
        (DeploymentStatus::Cancelled, "Cancelled", "cancelled"),
    ];
    for (s, label, db) in all {
        assert_eq!(s.to_string(), label);
        assert_eq!(s.db_name(), db);
        assert_eq!(DeploymentStatus::from_db_name(db), s);
    }
    assert_eq!(DeploymentStatus::from_db_name("weird"), DeploymentStatus::Pending);
}

#[test]
fn local_times() {
    // 2024-01-01T00:00:00Z shown at UTC+8
    assert_eq!(local_time(1_704_067_200_000_000_000), "2024-01-01 08:00:00");
    assert_eq!(local_time(0), "1970-01-01 08:00:00");
    assert_eq!(local_time(-1), "1970-01-01 07:59:59");
    let mut d = deployment("x", DeploymentStatus::Success, 0);
    d.started_at = Some(16 * 3_600_000_000_000);
    assert_eq!(d.created_at_local(), "1970-01-01 08:00:00");
    assert_eq!(d.started_at_local(), Some("1970-01-02 00:00:00".to_string()));
    assert_eq!(d.finished_at_local(), None);
    assert!(now_nanos() > 1_704_067_200_000_000_000);
}

#[test]
fn queue_deduplicates_active_deployments() {
    let mut q = DeploymentQueue::new();
    let id = q.queue_deployment_with("test-project".to_string(), create_test_project_config(), "a".to_string(), 1);
    assert_eq!(id, Some("a".to_string()));
    assert_eq!(q.len(), 1);
    let dup = q.queue_deployment_with("test-project".to_string(), create_test_project_config(), "b".to_string(), 2);
    assert_eq!(dup, None);
    let mut other = create_test_project_config();
    other.branch = "dev".to_string();
    assert_eq!(
        q.queue_deployment_with("test-project".to_string(), other, "c".to_string(), 3),
        Some("c".to_string())
    );
    let d = q.find("a").unwrap();
    assert_eq!(d.status, DeploymentStatus::Pending);
    assert_eq!(d.created_at, 1);
    assert!(q.find("zzz").is_none());
}

#[test]
fn queue_with_random_ids() {
    let mut q = DeploymentQueue::new();
    let id = q.queue_deployment("test-project".to_string(), create_test_project_config()).unwrap();
    assert_eq!(id.len(), 36);
    let d = q.find(&id).unwrap();
    assert_eq!(d.project_name, "test-project");
    assert_eq!(d.status, DeploymentStatus::Pending);
    assert!(q.queue_deployment("test-project".to_string(), create_test_project_config()).is_none());
}

#[test]
fn pop_takes_first_pending() {
    let mut q = DeploymentQueue::new();
    q.queue_deployment_with("a".to_string(), create_test_project_config(), "1".to_string(), 1);
    q.queue_deployment_with("b".to_string(), create_test_project_config(), "2".to_string(), 2);
    q.update_status_at("1", DeploymentStatus::Running, 5);
    let popped = q.pop_deployment().unwrap();
    assert_eq!(popped.id, "2");
    assert_eq!(q.len(), 1);
    assert!(q.pop_deployment().is_none());
}

#[test]
fn status_updates_record_times() {
    let mut q = DeploymentQueue::new();
    q.queue_deployment_with("a".to_string(), create_test_project_config(), "1".to_string(), 1);
    assert_eq!(q.update_status_at("1", DeploymentStatus::Running, 10), Some((Some(10), None)));
    assert_eq!(q.find("1").unwrap().started_at, Some(10));
    assert_eq!(q.update_status_at("1", DeploymentStatus::Success, 20), Some((Some(10), Some(20))));
    let d = q.find("1").unwrap();
    assert_eq!(d.status, DeploymentStatus::Success);
    assert_eq!(d.finished_at, Some(20));
    assert_eq!(q.update_status_at("nope", DeploymentStatus::Failed, 30), None);
    assert!(q.update_status("1", DeploymentStatus::Failed).is_some());
}

#[test]
fn unqueued_status_times() {
    assert_eq!(status_times_unqueued(DeploymentStatus::Running, None, None, 7), (Some(7), None));
    assert_eq!(status_times_unqueued(DeploymentStatus::Running, Some(3), Some(4), 7), (Some(3), None));
    assert_eq!(status_times_unqueued(DeploymentStatus::Failed, Some(3), None, 7), (Some(3), Some(7)));
    assert_eq!(status_times_unqueued(DeploymentStatus::Pending, Some(3), Some(4), 7), (Some(3), Some(4)));
}

#[test]
fn cancel_only_pending() {
    let mut q = DeploymentQueue::new();
    q.queue_deployment_with("a".to_string(), create_test_project_config(), "1".to_string(), 1);
    assert_eq!(q.cancel_deployment_at("1", 9), Some((None, Some(9))));
    assert_eq!(q.find("1").unwrap().status, DeploymentStatus::Cancelled);
    assert_eq!(q.cancel_deployment_at("1", 10), None);
}

#[test]
fn delete_only_pending() {
    let mut q = DeploymentQueue::new();
    q.queue_deployment_with("a".to_string(), create_test_project_config(), "1".to_string(), 1);
    q.queue_deployment_with("b".to_string(), create_test_project_config(), "2".to_string(), 2);
    q.update_status_at("2", DeploymentStatus::Running, 3);
    assert!(!q.delete_pending("2"));
    assert!(q.delete_pending("1"));
    assert!(q.find("1").is_none());
    assert_eq!(q.len(), 1);
}

#[test]
fn retry_failed_in_queue_and_from_record() {
    let mut q = DeploymentQueue::new();
    q.queue_deployment_with("a".to_string(), create_test_project_config(), "1".to_string(), 1);
    assert!(!q.retry_in_queue("1"));
    q.update_status_at("1", DeploymentStatus::Running, 2);
    q.update_status_at("1", DeploymentStatus::Failed, 3);
    assert!(q.retry_in_queue("1"));
    let d = q.find("1").unwrap();
    assert_eq!(d.status, DeploymentStatus::Pending);
    assert_eq!(d.started_at, None);
    assert_eq!(d.finished_at, None);

    let mut record = deployment("old", DeploymentStatus::Failed, 5);
    record.finished_at = Some(6);
    assert!(q.requeue_failed_at(record, 50));
    let d = q.find("old").unwrap();
    assert_eq!(d.status, DeploymentStatus::Pending);
    assert_eq!(d.created_at, 50);
    assert_eq!(d.finished_at, None);
    assert!(!q.requeue_failed_at(deployment("ok", DeploymentStatus::Success, 5), 60));
    assert!(q.requeue_failed(deployment("again", DeploymentStatus::Failed, 5)));
}

#[test]
fn sorting_and_merging() {
    let v = vec![
        deployment("a", DeploymentStatus::Success, 1),
        deployment("b", DeploymentStatus::Success, 3),
        deployment("c", DeploymentStatus::Success, 2),
        deployment("d", DeploymentStatus::Success, 3),
    ];
    let sorted: Vec<String> = sort_by_created_desc(v).into_iter().map(|d| d.id).collect();
    assert_eq!(sorted, vec!["b", "d", "c", "a"]);

    let from_db = vec![deployment("x", DeploymentStatus::Success, 1), deployment("y", DeploymentStatus::Failed, 4)];
    let mut mem = VecDeque::new();
    mem.push_back(deployment("y", DeploymentStatus::Running, 4));
    mem.push_back(deployment("z", DeploymentStatus::Pending, 9));
    let merged = merge_deployments(from_db, mem);
    let ids: Vec<(String, DeploymentStatus)> = merged.into_iter().map(|d| (d.id, d.status)).collect();
    assert_eq!(
        ids,
        vec![
            ("z".to_string(), DeploymentStatus::Pending),
            ("y".to_string(), DeploymentStatus::Running),
            ("x".to_string(), DeploymentStatus::Success)
        ]
    );
}

#[test]
fn test_deployment_manager_new() {
    let queue = DeploymentQueue::new();
    assert_eq!(queue.len(), 0);
}

#[test]
fn test_queue_deployment() {
    let mut queue = DeploymentQueue::new();
    let project = create_test_project_config();

    let id = queue.queue_deployment("test-project".to_string(), project);

    assert!(id.is_some());
    assert!(!id.unwrap().is_empty());
    assert_eq!(queue.len(), 1);
}

#[test]
fn test_get_deployment_found() {
    let mut queue = DeploymentQueue::new();
    let project = create_test_project_config();

    let id = queue.queue_deployment("test-project".to_string(), project).unwrap();
    let deployment = queue.find(&id);

    assert!(deployment.is_some());
    let d = deployment.unwrap();
    assert_eq!(d.project_name, "test-project");
    assert_eq!(d.status, DeploymentStatus::Pending);
}

#[test]
fn test_delete_deployment_pending() {
    let mut queue = DeploymentQueue::new();
    let project = create_test_project_config();

    let id = queue.queue_deployment("test-project".to_string(), project).unwrap();
    let deleted = queue.delete_pending(&id);

    assert!(deleted);
    assert!(queue.find(&id).is_none());
}

#[test]
fn test_delete_deployment_running_fails() {
    let mut queue = DeploymentQueue::new();
    let project = create_test_project_config();

    let id = queue.queue_deployment("test-project".to_string(), project).unwrap();
    queue.update_status(&id, DeploymentStatus::Running);

    let deleted = queue.delete_pending(&id);
    assert!(!deleted);
}

#[test]
fn test_retry_deployment_failed() {
    let mut queue = DeploymentQueue::new();
    let project = create_test_project_config();

    let id = queue.queue_deployment("test-project".to_string(), project).unwrap();
    queue.update_status(&id, DeploymentStatus::Failed);

    let retried = queue.retry_in_queue(&id);
    assert!(retried);

    let deployment = queue.find(&id).unwrap();
    assert_eq!(deployment.status, DeploymentStatus::Pending);
}

#[test]
fn clock_readings() {
    assert_eq!(nanos_from_reading(Some(42)), 42);
    assert_eq!(nanos_from_reading(None), i64::MAX);
}

#[test]
fn only_waiting_stored_deployments_are_deletable() {
    assert!(stored_deletable(&deployment("a", DeploymentStatus::Pending, 1)));
    assert!(!stored_deletable(&deployment("b", DeploymentStatus::Running, 1)));
    assert!(!stored_deletable(&deployment("c", DeploymentStatus::Failed, 1)));
}
