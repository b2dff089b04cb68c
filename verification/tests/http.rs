use testrunner::http::{
    get_request, get_response, message_response, parse_testrun, put_request, put_response,
    response, STATUS_BAD_REQUEST, STATUS_CREATED, STATUS_INTERNAL_SERVER_ERROR, STATUS_NOT_FOUND,
    STATUS_OK,
};
use testrunner::model::TestRun;
use testrunner::string_map::StringMap;

const BODY: &str = "{\"id\":\"abc\",\"files\":{\"main.py\":\"print(1)\"},\"language\":\"python\",\"status\":\"queued\",\"tests\":[]}";

fn stored() -> TestRun {
    let mut files = StringMap::new();
    files.insert("main.py".to_string(), "print(1)".to_string());
    TestRun {
        id: "abc".to_string(),
        files,
        language: "python".to_string(),
        status: "queued".to_string(),
        tests: Vec::new(),
    }
}

#[test]
fn status_codes_are_the_usual_ones() {
    assert_eq!(STATUS_OK, 200);
    assert_eq!(STATUS_CREATED, 201);
    assert_eq!(STATUS_BAD_REQUEST, 400);
    assert_eq!(STATUS_NOT_FOUND, 404);
    assert_eq!(STATUS_INTERNAL_SERVER_ERROR, 500);
}

#[test]
fn a_response_is_marked_as_json() {
    let r = response(200, "{}".to_string());
    assert_eq!(r.status, 200);
    assert_eq!(r.content_type, "application/json");
    assert_eq!(r.body, "{}");
    let r = message_response(404, "not \"here\"");
    assert_eq!(r.status, 404);
    assert_eq!(r.content_type, "application/json");
    assert_eq!(r.body, "{\"message\":\"not \\\"here\\\"\"}");
}

#[test]
fn get_needs_an_id() {
    assert_eq!(get_request(Some("abc")).unwrap(), "abc");
    let refusal = get_request(None).unwrap_err();
    assert_eq!(refusal.status, 400);
    assert_eq!(refusal.body, "{\"message\":\"Missing 'id' parameter in path\"}");
}

#[test]
fn get_answers_each_outcome() {
    let found: Result<Option<TestRun>, String> = Ok(Some(stored()));
    let r = get_response(&found);
    assert_eq!(r.status, 200);
    assert_eq!(r.body, BODY);
    let absent: Result<Option<TestRun>, String> = Ok(None);
    let r = get_response(&absent);
    assert_eq!(r.status, 404);
    assert_eq!(r.body, "{\"message\":\"TestRun not found\"}");
    let failed: Result<Option<TestRun>, String> = Err("down".to_string());
    let r = get_response(&failed);
    assert_eq!(r.status, 500);
    assert_eq!(r.body, "{\"message\":\"Error fetching testrun\"}");
}

#[test]
fn put_accepts_a_test_run_whose_id_is_that_of_the_path() {
    let run = put_request(Some("abc"), Some(BODY)).unwrap();
    assert_eq!(run.id, "abc");
    assert_eq!(run.language, "python");
    assert_eq!(run.status, "queued");
    assert_eq!(run.files.get("main.py"), Some(&"print(1)".to_string()));
    assert!(run.tests.is_empty());
}

#[test]
fn put_refuses_what_it_cannot_store() {
    let refusal = put_request(None, Some(BODY)).unwrap_err();
    assert_eq!(refusal.status, 400);
    assert_eq!(refusal.body, "{\"message\":\"Missing 'id' parameter in path\"}");
    let refusal = put_request(None, None).unwrap_err();
    assert_eq!(refusal.body, "{\"message\":\"Missing 'id' parameter in path\"}");
    let refusal = put_request(Some("abc"), None).unwrap_err();
    assert_eq!(refusal.status, 400);
    assert_eq!(refusal.body, "{\"message\":\"Missing testrun in request body\"}");
    for body in ["", "{", "[]", "{\"id\":\"abc\"}", "{\"id\":1,\"files\":{},\"language\":\"\",\"status\":\"\",\"tests\":[]}"] {
        let refusal = put_request(Some("abc"), Some(body)).unwrap_err();
        assert_eq!(refusal.status, 400);
        assert_eq!(refusal.body, "{\"message\":\"Failed to parse testrun from request body\"}");
    }
    let refusal = put_request(Some("abd"), Some(BODY)).unwrap_err();
    assert_eq!(refusal.status, 400);
    assert_eq!(refusal.body, "{\"message\":\"TestRun ID in path does not match ID in body\"}");
}

#[test]
fn put_answers_each_outcome() {
    let stored: Result<(), String> = Ok(());
    let r = put_response(&stored);
    assert_eq!(r.status, 201);
    assert_eq!(r.body, "{\"message\":\"Testrun queued\"}");
    let failed: Result<(), String> = Err("down".to_string());
    let r = put_response(&failed);
    assert_eq!(r.status, 500);
    assert_eq!(r.body, "{\"message\":\"Failed to create testrun\"}");
}

#[test]
fn a_test_run_is_read_back_from_its_document() {
    let run = parse_testrun(&stored().to_json().to_text()).unwrap();
    assert_eq!(run.id, "abc");
    assert_eq!(run.files.len(), 1);
    assert_eq!(run.files.name_at(0), "main.py");
    assert_eq!(run.files.value_at(0), "print(1)");
    assert!(parse_testrun("{\"id\":\"abc\",\"files\":{},\"language\":\"\",\"status\":\"\"}").is_none());
}
