use supertts::api::{
    check_api_key, check_request, checkout_failure_status, is_known_model, request_problem,
    request_problem_error, AuthSettings, RequestProblem, TtsError, STATUS_INTERNAL_SERVER_ERROR,
    STATUS_SERVICE_UNAVAILABLE, STATUS_UNAUTHORIZED,
};
use supertts::config::PoolError;

fn auth(require: bool, key: Option<&str>) -> AuthSettings {
    AuthSettings { require_api_key: require, api_key: key.map(|k| k.to_string()) }
}

#[test]
fn no_key_required_accepts_anything() {
    assert_eq!(check_api_key(None, &auth(false, Some("k"))), Ok(()));
    assert_eq!(check_api_key(Some("junk"), &auth(false, Some("k"))), Ok(()));
}

#[test]
fn matching_bearer_token_is_accepted() {
    assert_eq!(check_api_key(Some("Bearer secret"), &auth(true, Some("secret"))), Ok(()));
}

#[test]
fn wrong_or_missing_token_is_refused() {
    let a = auth(true, Some("secret"));
    assert_eq!(check_api_key(Some("Bearer other"), &a), Err(STATUS_UNAUTHORIZED));
    assert_eq!(check_api_key(Some("secret"), &a), Err(STATUS_UNAUTHORIZED));
    assert_eq!(check_api_key(Some("bearer secret"), &a), Err(STATUS_UNAUTHORIZED));
    assert_eq!(check_api_key(None, &a), Err(STATUS_UNAUTHORIZED));
    assert_eq!(STATUS_UNAUTHORIZED, 401);
}

#[test]
fn required_but_unconfigured_key_accepts() {
    assert_eq!(check_api_key(None, &auth(true, None)), Ok(()));
    assert_eq!(check_api_key(Some("Bearer x"), &auth(true, None)), Ok(()));
}

#[test]
fn checkout_failures_map_to_statuses() {
    assert_eq!(checkout_failure_status(PoolError::Timeout), 503);
    assert_eq!(checkout_failure_status(PoolError::Closed), STATUS_SERVICE_UNAVAILABLE);
    assert_eq!(checkout_failure_status(PoolError::EngineLoad), STATUS_SERVICE_UNAVAILABLE);
    assert_eq!(checkout_failure_status(PoolError::InvalidPoolSize), STATUS_INTERNAL_SERVER_ERROR);
}

#[test]
fn error_body_holds_its_parts() {
    let e = TtsError::new("m".to_string(), "t".to_string(), Some("c".to_string()));
    assert_eq!(e.error.message, "m");
    assert_eq!(e.error.type_, "t");
    assert_eq!(e.error.code, Some("c".to_string()));
}

#[test]
fn request_rules_in_order() {
    assert_eq!(check_request("", Some("mp3")), Some(RequestProblem::EmptyInput));
    assert_eq!(check_request("  \t\n", None), Some(RequestProblem::EmptyInput));
    assert_eq!(check_request("hello", Some("mp3")), Some(RequestProblem::UnsupportedFormat));
    assert_eq!(check_request("hello", Some("wav")), None);
    assert_eq!(check_request("hello", None), None);
    assert_eq!(request_problem(true, Some("wav")), Some(RequestProblem::EmptyInput));
    assert_eq!(request_problem(false, Some("WAV")), Some(RequestProblem::UnsupportedFormat));
    assert_eq!(request_problem(false, None), None);
}

#[test]
fn known_model_names() {
    assert!(is_known_model("supertts"));
    assert!(is_known_model("tts-1"));
    assert!(is_known_model("tts-1-hd"));
    assert!(!is_known_model("tts-2"));
}

#[test]
fn request_problem_bodies() {
    let e = request_problem_error(RequestProblem::EmptyInput, "wav");
    assert_eq!(e.error.message, "Input text cannot be empty");
    assert_eq!(e.error.type_, "invalid_request_error");
    assert_eq!(e.error.code, Some("empty_input".to_string()));
    let f = request_problem_error(RequestProblem::UnsupportedFormat, "mp3");
    assert_eq!(f.error.message, "Response format 'mp3' is not supported. Only 'wav' is supported.");
    assert_eq!(f.error.code, Some("unsupported_format".to_string()));
}
