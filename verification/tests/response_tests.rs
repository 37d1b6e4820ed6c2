use htsget_resolve::response::{
    handle_response, render_error, translate, ErrorKind, Outcome, STATUS_OK,
};

fn all_kinds() -> Vec<ErrorKind> {
    vec![
        ErrorKind::NoMatch,
        ErrorKind::InvalidInput,
        ErrorKind::Forbidden,
        ErrorKind::BackendError,
        ErrorKind::InternalConfigError,
    ]
}

#[test]
fn every_kind_has_its_status() {
    assert_eq!(ErrorKind::NoMatch.status_code(), 404);
    assert_eq!(ErrorKind::InvalidInput.status_code(), 400);
    assert_eq!(ErrorKind::Forbidden.status_code(), 403);
    assert_eq!(ErrorKind::BackendError.status_code(), 500);
    assert_eq!(ErrorKind::InternalConfigError.status_code(), 500);
}

#[test]
fn every_kind_has_its_name() {
    let names: Vec<&str> = all_kinds().iter().map(|kind| kind.name()).collect();
    assert_eq!(
        names,
        vec!["NoMatch", "InvalidInput", "Forbidden", "BackendError", "InternalConfigError"]
    );
}

#[test]
fn failure_is_answered_with_the_status_of_its_kind() {
    for kind in all_kinds() {
        let response = translate(Outcome::Failure(kind, "why".to_string()));
        assert_eq!(response.status, kind.status_code());
        assert_eq!(response.content_type, "application/json");
        let body: serde_json::Value = serde_json::from_str(&response.body).unwrap();
        assert_eq!(body.get("error").and_then(|v| v.as_str()), Some(kind.name()));
        assert_eq!(body.get("message").and_then(|v| v.as_str()), Some("why"));
    }
}

#[test]
fn error_body_is_written_exactly() {
    assert_eq!(
        render_error(ErrorKind::NoMatch, "no resolver for 3-xyz"),
        "{\n  \"error\": \"NoMatch\",\n  \"message\": \"no resolver for 3-xyz\"\n}"
    );
}

#[test]
fn error_body_escapes_the_message() {
    let body = render_error(ErrorKind::InvalidInput, "bad \"id\"\n\\");
    assert_eq!(
        body,
        "{\n  \"error\": \"InvalidInput\",\n  \"message\": \"bad \\\"id\\\"\\n\\\\\"\n}"
    );
    let parsed: serde_json::Value = serde_json::from_str(&body).unwrap();
    assert_eq!(parsed.get("message").and_then(|v| v.as_str()), Some("bad \"id\"\n\\"));
}

#[test]
fn error_body_is_printed_as_a_success_body_is() {
    let mut object = serde_json::Map::new();
    object.insert("error".to_string(), serde_json::Value::String("Forbidden".to_string()));
    object.insert("message".to_string(), serde_json::Value::String("not \"here\"".to_string()));
    let pretty = serde_json::to_string_pretty(&serde_json::Value::Object(object)).unwrap();
    assert_eq!(render_error(ErrorKind::Forbidden, "not \"here\""), pretty);
}

#[test]
fn success_keeps_its_payload() {
    let mut url = serde_json::Map::new();
    url.insert(
        "url".to_string(),
        serde_json::Value::String("http://127.0.0.1:8081/data/bam/htsnexus_test_NA12878.bam".to_string()),
    );
    let mut htsget = serde_json::Map::new();
    htsget.insert("format".to_string(), serde_json::Value::String("BAM".to_string()));
    htsget.insert(
        "urls".to_string(),
        serde_json::Value::Array(vec![serde_json::Value::Object(url)]),
    );
    let mut payload = serde_json::Map::new();
    payload.insert("htsget".to_string(), serde_json::Value::Object(htsget));
    let payload = serde_json::Value::Object(payload);
    let text = serde_json::to_string_pretty(&payload).unwrap();

    let response = translate(Outcome::Success(text.clone()));
    assert_eq!(response.status, 200);
    assert_eq!(response.status, STATUS_OK);
    assert_eq!(response.content_type, "application/json");
    assert_eq!(response.body, text);
    let parsed: serde_json::Value = serde_json::from_str(&response.body).unwrap();
    assert_eq!(parsed, payload);
}

#[test]
fn translation_is_repeatable() {
    let once = translate(Outcome::Failure(ErrorKind::BackendError, "storage".to_string()));
    let twice = translate(Outcome::Failure(ErrorKind::BackendError, "storage".to_string()));
    assert_eq!(once.status, twice.status);
    assert_eq!(once.body, twice.body);
    assert_eq!(once.content_type, twice.content_type);
}

#[test]
fn handler_results_are_rendered() {
    let ok = handle_response(Ok("{}".to_string()));
    assert_eq!((ok.status, ok.body.as_str()), (200, "{}"));
    let failed = handle_response(Err((ErrorKind::Forbidden, "scheme".to_string())));
    assert_eq!(failed.status, 403);
    assert_eq!(failed.body, "{\n  \"error\": \"Forbidden\",\n  \"message\": \"scheme\"\n}");
}
