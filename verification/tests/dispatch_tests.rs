use httpui::dispatch::{is_json_content_type, response_text, Outcome};

#[test]
fn json_content_type_triggers_pretty_printing() {
    let outcome = Outcome::Success {
        content_type: Some("application/json".to_owned()),
        body: "{\"a\":1}".to_owned(),
    };
    assert_eq!(response_text(outcome), "{\n  \"a\": 1\n}");
}

#[test]
fn content_type_with_parameters_does_not_match() {
    let outcome = Outcome::Success {
        content_type: Some("application/json; charset=utf-8".to_owned()),
        body: "{\"a\":1}".to_owned(),
    };
    assert_eq!(response_text(outcome), "{\"a\":1}");
}

#[test]
fn missing_content_type_returns_the_raw_body() {
    let outcome = Outcome::Success {
        content_type: None,
        body: "plain text".to_owned(),
    };
    assert_eq!(response_text(outcome), "plain text");
}

#[test]
fn failure_text_becomes_the_response() {
    let message = "error sending request for url (http://unreachable.invalid/): \
                   connection refused";
    let outcome = Outcome::Failure {
        message: message.to_owned(),
    };
    let shown = response_text(outcome);
    assert_eq!(shown, message);
    assert!(!shown.is_empty());
}

#[test]
fn content_type_matching_is_exact() {
    assert!(is_json_content_type("application/json"));
    assert!(!is_json_content_type("application/json; charset=utf-8"));
    assert!(!is_json_content_type("application/JSON"));
    assert!(!is_json_content_type("text/html"));
    assert!(!is_json_content_type(""));
}
