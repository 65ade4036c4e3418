use deploy_bot::project_config::RestartService;

#[test]
fn test_restart_service_single_string() {
    let restart_service = RestartService::Single("web".to_string());
    assert_eq!(restart_service.to_services(), vec!["web"]);
}

#[test]
fn test_restart_service_multiple() {
    let restart_service = RestartService::Multiple(vec!["web".to_string(), "worker".to_string()]);
    assert_eq!(restart_service.to_services(), vec!["web", "worker"]);
}

#[test]
fn test_restart_service_not_configured() {
    let restart_service = RestartService::default();
    assert!(restart_service.to_services().is_empty());
}
