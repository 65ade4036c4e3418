use deploy_bot::config::{DockerComposePaths, ServerConfig};
use deploy_bot::error::AppError;
use deploy_bot::webhook::{
    check_project_files, config_load_error, handle_webhook, same_name, validate_codeup_token,
    validate_github_signature, validate_gitlab_token, validate_webhook_request, webhook_reply,
    WebhookRequest,
};
use hmac::{Hmac, Mac};
use sha2::Sha256;

fn server_config() -> ServerConfig {
    ServerConfig {
        host: "0.0.0.0".to_string(),
        port: 8080,
        github_secret: None,
        gitlab_token: None,
        codeup_token: None,
        webhook_token: None,
        workspace_dir: "/tmp".to_string(),
        docker_compose_path: DockerComposePaths::NotSet,
        docker_compose_command: None,
        update_script: None,
        update_webhook_secret: None,
        update_webhook_urls: None,
        github_mirror: None,
    }
}

fn header(name: &str, value: &str) -> (String, Vec<u8>) {
    (name.to_string(), value.as_bytes().to_vec())
}

fn sign(payload: &[u8], secret: &str) -> String {
    let mut mac = Hmac::<Sha256>::new_from_slice(secret.as_bytes()).unwrap();
    mac.update(payload);
    format!("sha256={}", hex::encode(mac.finalize().into_bytes()))
}

fn message(r: Result<(), AppError>) -> String {
    match r {
        Err(e) => e.to_string(),
        Ok(()) => String::new(),
    }
}

#[test]
fn test_handler_function_exists() {
    let _ = handle_webhook as fn(_, _, _) -> _;
}

#[test]
fn test_validate_github_signature_valid() {
    let payload = b"{\"action\":\"push\"}";
    let secret = "test-secret";
    let signature = sign(payload, secret);

    let result = validate_github_signature(payload, &signature, secret);
    assert!(result.is_ok());
}

#[test]
fn test_validate_github_signature_invalid() {
    let payload = b"{\"action\":\"push\"}";
    let secret = "test-secret";
    let invalid_signature = "sha256=invalidsignature";

    let result = validate_github_signature(payload, invalid_signature, secret);
    assert!(result.is_err());
}

#[test]
fn test_validate_github_signature_empty_secret() {
    let payload = b"{\"action\":\"push\"}";

    let result = validate_github_signature(payload, "any", "");
    assert!(result.is_err());
}

#[test]
fn github_signature_known_value() {
    // The RFC 4231 example with key "Jefe" and data "what do ya want for nothing?".
    let expected =
        "sha256=5bdcc146bf60754e6a042426089575c75a003f089d2739839dec58b964ec3843";
    assert!(validate_github_signature(b"what do ya want for nothing?", expected, "Jefe").is_ok());
    let upper = expected.to_uppercase().replace("SHA256=", "sha256=");
    let r = validate_github_signature(b"what do ya want for nothing?", &upper, "Jefe");
    assert_eq!(message(r), "Webhook validation failed: Invalid signature");
}

#[test]
fn test_validate_gitlab_token_valid() {
    let result = validate_gitlab_token("valid-token", "valid-token");
    assert!(result.is_ok());
}

#[test]
fn test_validate_gitlab_token_invalid() {
    let result = validate_gitlab_token("wrong-token", "correct-token");
    assert!(result.is_err());
}

#[test]
fn test_validate_gitlab_token_empty() {
    let result = validate_gitlab_token("", "");
    assert!(result.is_ok());
}

#[test]
fn test_validate_codeup_token_valid() {
    let result = validate_codeup_token("valid-token", "valid-token");
    assert!(result.is_ok());
}

#[test]
fn test_validate_codeup_token_invalid() {
    let result = validate_codeup_token("wrong-token", "correct-token");
    assert!(result.is_err());
}

#[test]
fn test_validate_codeup_token_empty() {
    let result = validate_codeup_token("", "");
    assert!(result.is_ok());
}

#[test]
fn token_mismatch_message() {
    let r = validate_gitlab_token("a", "b");
    assert_eq!(message(r), "Webhook validation failed: Invalid token");
}

#[test]
fn test_validate_webhook_request_with_generic_token_valid() {
    let headers = vec![header("X-Webhook-Token", "test-token-123")];
    let mut config = server_config();
    config.webhook_token = Some("test-token-123".to_string());

    let result = validate_webhook_request(&headers, b"test body", &config);
    assert!(result.is_ok());
}

#[test]
fn test_validate_webhook_request_with_generic_token_invalid() {
    let headers = vec![header("X-Webhook-Token", "wrong-token")];
    let mut config = server_config();
    config.webhook_token = Some("test-token-123".to_string());

    let result = validate_webhook_request(&headers, b"test body", &config);
    assert!(result.is_err());
    assert!(result.unwrap_err().to_string().contains("Invalid webhook token"));
}

#[test]
fn test_validate_webhook_request_with_generic_token_missing() {
    let headers: Vec<(String, Vec<u8>)> = vec![];
    let mut config = server_config();
    config.webhook_token = Some("test-token-123".to_string());

    let result = validate_webhook_request(&headers, b"test body", &config);
    assert!(result.is_err());
    assert!(result.unwrap_err().to_string().contains("no valid token/secret found"));
}

#[test]
fn test_validate_webhook_request_no_auth_configured() {
    let headers: Vec<(String, Vec<u8>)> = vec![];
    let config = server_config();

    let result = validate_webhook_request(&headers, b"test body", &config);
    assert!(result.is_err());
    assert!(result.unwrap_err().to_string().contains("webhook_token"));
}

#[test]
fn webhook_request_github_signature() {
    let body = b"{\"ref\":\"refs/heads/main\"}";
    let mut config = server_config();
    config.github_secret = Some("s3cret".to_string());
    let good = vec![header("x-hub-signature-256", &sign(body, "s3cret"))];
    assert!(validate_webhook_request(&good, body, &config).is_ok());
    let bad = vec![header("X-Hub-Signature-256", &sign(body, "other"))];
    assert_eq!(
        message(validate_webhook_request(&bad, body, &config)),
        "Webhook validation failed: Invalid signature"
    );
    let binary = vec![("X-Hub-Signature-256".to_string(), vec![0xff, 0x00])];
    assert_eq!(
        message(validate_webhook_request(&binary, body, &config)),
        "Webhook validation failed: Invalid signature header"
    );
}

#[test]
fn webhook_request_gitlab_and_codeup() {
    let mut config = server_config();
    config.gitlab_token = Some("gl".to_string());
    config.codeup_token = Some("cu".to_string());
    assert!(validate_webhook_request(&vec![header("X-Gitlab-Token", "gl")], b"", &config).is_ok());
    assert_eq!(
        message(validate_webhook_request(&vec![header("X-Gitlab-Token", "no")], b"", &config)),
        "Webhook validation failed: Invalid token"
    );
    assert!(validate_webhook_request(&vec![header("x-codeup-token", "cu")], b"", &config).is_ok());
    assert!(validate_webhook_request(&vec![header("X-CODEUP-TOKEN", "cu")], b"", &config).is_ok());
    let control = vec![("X-Codeup-Token".to_string(), vec![b'c', 0x07])];
    assert_eq!(
        message(validate_webhook_request(&control, b"", &config)),
        "Webhook validation failed: Invalid token header"
    );
}

#[test]
fn webhook_request_header_without_secret_falls_through() {
    // A GitHub signature header without a configured GitHub secret does not
    // decide; the generic token then does.
    let mut config = server_config();
    config.webhook_token = Some("t".to_string());
    let headers = vec![header("X-Hub-Signature-256", "sha256=00"), header("X-Webhook-Token", "t")];
    assert!(validate_webhook_request(&headers, b"", &config).is_ok());
    // The first value of a repeated header is the one checked.
    let repeated = vec![header("X-Webhook-Token", "u"), header("X-Webhook-Token", "t")];
    assert_eq!(
        message(validate_webhook_request(&repeated, b"", &config)),
        "Webhook validation failed: Invalid webhook token"
    );
}

#[test]
fn header_names_ignore_case() {
    assert!(same_name("X-Webhook-Token", "x-webhook-token"));
    assert!(!same_name("X-Webhook-Token", "X-Webhook-Tokens"));
    assert!(!same_name("a", "b"));
}

#[test]
fn handle_webhook_finds_project_paths() {
    let mut config = server_config();
    config.workspace_dir = "/srv/workspace".to_string();
    config.webhook_token = Some("t".to_string());
    let request = WebhookRequest { headers: vec![header("X-Webhook-Token", "t")], body: vec![] };
    let target = handle_webhook("site", &request, &config).unwrap();
    assert_eq!(target.project_dir, "/srv/workspace/site");
    assert_eq!(target.config_file, "/srv/workspace/site/.deploy.yaml");

    config.workspace_dir = "/srv/workspace/".to_string();
    let target = handle_webhook("site", &request, &config).unwrap();
    assert_eq!(target.project_dir, "/srv/workspace/site");

    let refused = WebhookRequest { headers: vec![], body: vec![] };
    let e = handle_webhook("site", &refused, &config).unwrap_err();
    assert_eq!(e.status_code(), 401);
}

#[test]
fn project_file_checks() {
    let mut config = server_config();
    config.webhook_token = Some("t".to_string());
    let request = WebhookRequest { headers: vec![header("X-Webhook-Token", "t")], body: vec![] };
    let target = handle_webhook("app", &request, &config).unwrap();
    assert!(check_project_files(&target, true, true).is_ok());
    let e = check_project_files(&target, false, false).unwrap_err();
    assert_eq!(e.to_string(), "Project not found: Project directory not found: /tmp/app");
    assert_eq!(e.status_code(), 404);
    let e = check_project_files(&target, true, false).unwrap_err();
    assert_eq!(
        e.to_string(),
        "Project not found: Project not configured: /tmp/app/.deploy.yaml not found"
    );
    assert_eq!(
        config_load_error("bad toml").to_string(),
        "Configuration error: Failed to load project config: bad toml"
    );
}

#[test]
fn webhook_replies() {
    let r = webhook_reply(Some("id-1".to_string()));
    assert_eq!(r.message, "Deployment queued");
    assert_eq!(r.deployment_id, Some("id-1".to_string()));
    let r = webhook_reply(None);
    assert_eq!(r.message, "Deployment skipped - duplicate task exists");
    assert_eq!(r.deployment_id, None);
}
