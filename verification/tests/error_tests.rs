use axum::http::StatusCode;
use deploy_bot::error::AppError;

fn status(e: &AppError) -> StatusCode {
    StatusCode::from_u16(e.status_code()).unwrap()
}

#[test]
fn test_app_error_config_status() {
    let error = AppError::Config("test error".to_string());
    assert_eq!(status(&error), StatusCode::INTERNAL_SERVER_ERROR);
}

#[test]
fn test_app_error_git_status() {
    let error = AppError::Git("git error".to_string());
    assert_eq!(status(&error), StatusCode::INTERNAL_SERVER_ERROR);
}

#[test]
fn test_app_error_project_not_found_status() {
    let error = AppError::ProjectNotFound("project not found".to_string());
    assert_eq!(status(&error), StatusCode::NOT_FOUND);
}

#[test]
fn test_app_error_webhook_validation_status() {
    let error = AppError::WebhookValidation("invalid signature".to_string());
    assert_eq!(status(&error), StatusCode::UNAUTHORIZED);
}

#[test]
fn test_app_error_deployment_status() {
    let error = AppError::Deployment("deployment failed".to_string());
    assert_eq!(status(&error), StatusCode::INTERNAL_SERVER_ERROR);
}

#[test]
fn test_app_error_io_status() {
    let error = AppError::Io(std::io::Error::new(std::io::ErrorKind::NotFound, "file not found"));
    assert_eq!(status(&error), StatusCode::INTERNAL_SERVER_ERROR);
}

#[test]
fn test_app_error_serialization_status() {
    let error =
        AppError::Serialization(serde_json::from_str::<serde_json::Value>("invalid").unwrap_err());
    assert_eq!(status(&error), StatusCode::BAD_REQUEST);
}

#[test]
fn test_app_error_response_body() {
    let error = AppError::Config("configuration error message".to_string());
    assert_eq!(error.to_string(), "Configuration error: configuration error message");

    let error2 = AppError::ProjectNotFound("myproject".to_string());
    assert_eq!(error2.to_string(), "Project not found: myproject");
}

#[test]
fn error_texts_and_details() {
    assert_eq!(AppError::Git("x".to_string()).to_string(), "Git error: x");
    assert_eq!(
        AppError::WebhookValidation("bad".to_string()).to_string(),
        "Webhook validation failed: bad"
    );
    assert_eq!(AppError::Deployment("d".to_string()).to_string(), "Deployment error: d");
    let io = AppError::Io(std::io::Error::new(std::io::ErrorKind::NotFound, "file not found"));
    assert_eq!(io.to_string(), "IO error: file not found");
    assert_eq!(io.detail(), "file not found");
    assert_eq!(AppError::Config("c".to_string()).detail(), "c");
    let json =
        AppError::Serialization(serde_json::from_str::<serde_json::Value>("invalid").unwrap_err());
    assert!(json.to_string().starts_with("Serialization error: "));
}
