use deploy_bot::config::{
    compose_probe_accepts, legacy_probe_accepts, DockerComposeCommand, DockerComposePaths,
    ProbeOutput, ProjectType, ServerConfig,
};

fn server_config() -> ServerConfig {
    ServerConfig {
        host: "0.0.0.0".to_string(),
        port: 8080,
        github_secret: None,
        gitlab_token: None,
        codeup_token: None,
        webhook_token: None,
        workspace_dir: "/tmp".to_string(),
        docker_compose_path: DockerComposePaths::NotSet,
        docker_compose_command: None,
        update_script: None,
        update_webhook_secret: None,
        update_webhook_urls: None,
        github_mirror: None,
    }
}

#[test]
fn test_docker_compose_paths_merge_project_overrides_global() {
    let project = DockerComposePaths::Single("/project/compose.yaml".to_string());
    let global = DockerComposePaths::Single("/global/compose.yaml".to_string());

    let result = DockerComposePaths::merge(&project, &global);

    assert_eq!(result, Some(vec!["/project/compose.yaml".to_string()]));
}

#[test]
fn test_docker_compose_paths_merge_fallback_to_global() {
    let project = DockerComposePaths::NotSet;
    let global = DockerComposePaths::Single("/global/compose.yaml".to_string());

    let result = DockerComposePaths::merge(&project, &global);

    assert_eq!(result, Some(vec!["/global/compose.yaml".to_string()]));
}

#[test]
fn test_docker_compose_paths_merge_both_empty() {
    let project = DockerComposePaths::NotSet;
    let global = DockerComposePaths::NotSet;

    let result = DockerComposePaths::merge(&project, &global);

    assert_eq!(result, None);
}

#[test]
fn test_docker_compose_paths_merge_multiple_files() {
    let project = DockerComposePaths::Multiple(vec![
        "/project/base.yaml".to_string(),
        "/project/override.yaml".to_string(),
    ]);
    let global = DockerComposePaths::Single("/global/compose.yaml".to_string());

    let result = DockerComposePaths::merge(&project, &global);

    assert_eq!(
        result,
        Some(vec!["/project/base.yaml".to_string(), "/project/override.yaml".to_string()])
    );
}

#[test]
fn test_docker_compose_paths_merge_project_multiple_overrides_global_single() {
    let project = DockerComposePaths::Multiple(vec![
        "/project/a.yaml".to_string(),
        "/project/b.yaml".to_string(),
    ]);
    let global = DockerComposePaths::Single("/global/compose.yaml".to_string());

    let result = DockerComposePaths::merge(&project, &global);

    assert_eq!(result, Some(vec!["/project/a.yaml".to_string(), "/project/b.yaml".to_string()]));
}

#[test]
fn test_docker_compose_paths_merge_global_multiple_fallback() {
    let project = DockerComposePaths::NotSet;
    let global = DockerComposePaths::Multiple(vec![
        "/global/base.yaml".to_string(),
        "/global/prod.yaml".to_string(),
    ]);

    let result = DockerComposePaths::merge(&project, &global);

    assert_eq!(result, Some(vec!["/global/base.yaml".to_string(), "/global/prod.yaml".to_string()]));
}

#[test]
fn merge_empty_project_list_falls_back_to_global() {
    let project = DockerComposePaths::Multiple(vec![]);
    let global = DockerComposePaths::Single("/g.yaml".to_string());
    assert_eq!(DockerComposePaths::merge(&project, &global), Some(vec!["/g.yaml".to_string()]));
    let empty_global = DockerComposePaths::Multiple(vec![]);
    assert_eq!(DockerComposePaths::merge(&project, &empty_global), None);
}

#[test]
fn paths_is_empty_and_to_vec() {
    assert!(DockerComposePaths::NotSet.is_empty());
    assert!(DockerComposePaths::Multiple(vec![]).is_empty());
    assert!(!DockerComposePaths::Single("a".to_string()).is_empty());
    assert_eq!(DockerComposePaths::NotSet.to_vec(), Vec::<String>::new());
    assert_eq!(
        DockerComposePaths::Multiple(vec!["a".to_string(), "b".to_string()]).to_vec(),
        vec!["a".to_string(), "b".to_string()]
    );
    assert_eq!(DockerComposePaths::default(), DockerComposePaths::NotSet);
}

#[test]
fn project_type_names_round_trip() {
    for (t, n) in [
        (ProjectType::Nodejs, "nodejs"),
        (ProjectType::Rust, "rust"),
        (ProjectType::Python, "python"),
        (ProjectType::Php, "php"),
        (ProjectType::Custom, "custom"),
    ] {
        assert_eq!(t.to_string(), n);
        assert_eq!(ProjectType::from_name(n), t);
    }
    assert_eq!(ProjectType::from_name("golang"), ProjectType::Custom);
}

#[test]
fn compose_probe_checks() {
    assert!(compose_probe_accepts("Docker Compose version v2.20.0\n", ""));
    assert!(!compose_probe_accepts("Usage:  docker [OPTIONS] COMMAND\n", ""));
    assert!(!compose_probe_accepts("", "Run 'docker --help' for more information"));
    assert!(!compose_probe_accepts("something else", ""));
    assert!(legacy_probe_accepts("Docker Compose version v2.2.3", true));
    assert!(legacy_probe_accepts("docker-compose v1.29.2", true));
    // The 1.x banner names neither `Compose` nor a `v`-version.
    assert!(!legacy_probe_accepts("docker-compose version 1.29.2, build 5becea4c", true));
    assert!(!legacy_probe_accepts("docker-compose v1.29.2", false));
    assert!(!legacy_probe_accepts("nothing here", true));
}

#[test]
fn detect_prefers_plugin_then_legacy() {
    let paths = DockerComposePaths::Single("./docker-compose.yaml".to_string());
    let good = ProbeOutput {
        stdout: "Docker Compose version v2.20.0".to_string(),
        stderr: String::new(),
        success: true,
    };
    let bad = ProbeOutput {
        stdout: "Usage: docker".to_string(),
        stderr: String::new(),
        success: false,
    };
    let legacy = ProbeOutput {
        stdout: "docker-compose version v1.29.2".to_string(),
        stderr: String::new(),
        success: true,
    };
    assert_eq!(
        DockerComposeCommand::detect_from(&paths, &Some(good.clone()), &Some(legacy.clone())),
        Some(DockerComposeCommand::DockerCompose)
    );
    assert_eq!(
        DockerComposeCommand::detect_from(&paths, &Some(bad), &Some(legacy.clone())),
        Some(DockerComposeCommand::DockerComposeLegacy)
    );
    assert_eq!(DockerComposeCommand::detect_from(&paths, &None, &None), None);
    assert_eq!(
        DockerComposeCommand::detect_from(&DockerComposePaths::NotSet, &Some(good), &Some(legacy)),
        None
    );
}

#[test]
fn server_config_flags() {
    let mut c = server_config();
    assert!(!c.is_update_script_configured());
    assert!(!c.is_update_webhook_secret_configured());
    assert!(!c.is_github_mirror_configured());
    c.update_script = Some("/opt/update.sh".to_string());
    c.update_webhook_secret = Some("s".to_string());
    c.github_mirror = Some("https://ghproxy.com/".to_string());
    assert!(c.is_update_script_configured());
    assert!(c.is_update_webhook_secret_configured());
    assert!(c.is_github_mirror_configured());
}
