use pipeline_engine::bridge::{AppState, LocalRequest, LocalResponse};
use pipeline_engine::json::Json;

fn request(uri: &str) -> LocalRequest {
    LocalRequest { uri: uri.to_string(), method: "GET".to_string(), body: None, headers: Vec::new() }
}

#[test]
fn test_local_request_creation() {
    let request = LocalRequest {
        uri: "/health".to_string(),
        method: "GET".to_string(),
        body: None,
        headers: Vec::new(),
    };

    assert_eq!(request.uri, "/health");
    assert_eq!(request.method, "GET");
    assert!(request.body.is_none());
}

#[test]
fn test_local_response_creation() {
    let response = LocalResponse::text("test body".to_string());
    assert_eq!(response.status_code, 200);
    assert_eq!(response.body, b"test body");
}

#[test]
fn test_json_response() {
    let data = Json::Object(vec![("status".to_string(), Json::String("ok".to_string()))]);
    let response = LocalResponse::json(&data);

    assert_eq!(response.status_code, 200);
    assert!(response.header("content-type").is_some());
    assert_eq!(response.header("content-type").unwrap(), "application/json");

    let parsed: serde_json::Value = serde_json::from_slice(&response.body).unwrap();
    assert_eq!(parsed["status"], "ok");
}

#[test]
fn test_html_response() {
    let html = "<h1>Hello World</h1>".to_string();
    let response = LocalResponse::html(html.clone());

    assert_eq!(response.status_code, 200);
    assert!(response.header("content-type").is_some());
    assert_eq!(response.header("content-type").unwrap(), "text/html; charset=utf-8");
    assert_eq!(response.body, html.as_bytes());
}

#[test]
fn test_internal_server_error() {
    let error = "Something went wrong".to_string();
    let response = LocalResponse::internal_server_error(error.clone());

    assert_eq!(response.status_code, 500);
    assert_eq!(response.body, format!("Internal Server Error: {}", error).as_bytes());
    assert!(response.headers.is_empty());
}

#[test]
fn text_response_is_plain_text() {
    let response = LocalResponse::text("héllo".to_string());
    assert_eq!(response.header("content-type").unwrap(), "text/plain");
    assert_eq!(response.body, "héllo".as_bytes());
    assert!(response.header("content-length").is_none());
}

#[test]
fn health_is_answered_on_both_paths() {
    for uri in ["/health", "/api/health"] {
        let response = request(uri).process_with_backend("1.2.3");
        assert_eq!(response.status_code, 200);
        assert_eq!(
            String::from_utf8(response.body).unwrap(),
            "{\"message\":\"Backend is running\",\"status\":true}"
        );
        assert!(response.headers.is_empty());
    }
}

#[test]
fn config_carries_the_version() {
    let response = request("/api/config").process_with_backend("1.2.3");
    assert_eq!(response.status_code, 200);
    let parsed: serde_json::Value = serde_json::from_slice(&response.body).unwrap();
    assert_eq!(parsed["name"], "Open CoreUI");
    assert_eq!(parsed["version"], "1.2.3");
    assert_eq!(parsed["status"], true);
    assert_eq!(parsed["features"]["auth"], false);
    assert_eq!(parsed["features"]["enable_websocket"], false);
    assert_eq!(parsed["features"].as_object().unwrap().len(), 6);
}

#[test]
fn models_are_an_empty_list() {
    let response = request("/api/models").process_with_backend("0");
    assert_eq!(response.status_code, 200);
    assert_eq!(String::from_utf8(response.body).unwrap(), "{\"data\":[]}");
}

#[test]
fn unknown_paths_are_not_found() {
    let response = request("/nowhere").process_with_backend("0");
    assert_eq!(response.status_code, 404);
    assert_eq!(String::from_utf8(response.body).unwrap(), "{\"error\":\"Not Found\"}");
}

#[test]
fn app_state_is_a_flag() {
    let state = AppState { backend_available: true };
    let copy = state;
    assert!(copy.backend_available);
    assert_eq!(state, copy);
}
