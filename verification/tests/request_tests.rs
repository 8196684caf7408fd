use httpui::request::{Method, Request};

#[test]
fn initial_request_has_the_documented_defaults() {
    let r = Request::initial();
    assert_eq!(r.url, "http://localhost:8080/");
    assert_eq!(r.method, Method::Get);
    assert_eq!(r.body, "");
    assert_eq!(r.headers.len(), 1);
    assert_eq!(r.headers[0].0, "Content-Type");
    assert_eq!(r.headers[0].1, "application/json");
}

#[test]
fn every_method_has_its_wire_name() {
    assert_eq!(Method::Options.name(), "OPTIONS");
    assert_eq!(Method::Get.name(), "GET");
    assert_eq!(Method::Post.name(), "POST");
    assert_eq!(Method::Put.name(), "PUT");
    assert_eq!(Method::Delete.name(), "DELETE");
    assert_eq!(Method::Head.name(), "HEAD");
    assert_eq!(Method::Trace.name(), "TRACE");
    assert_eq!(Method::Connect.name(), "CONNECT");
    assert_eq!(Method::Patch.name(), "PATCH");
}

#[test]
fn a_submitted_request_is_cloned_wholesale() {
    let mut r = Request::initial();
    r.url = "http://example.com/api".to_owned();
    r.method = Method::Post;
    r.body = "{\"k\":true}".to_owned();
    r.headers.push(("X-Extra".to_owned(), "1".to_owned()));
    let copy = r.clone();
    assert_eq!(copy.url, r.url);
    assert_eq!(copy.method, r.method);
    assert_eq!(copy.body, r.body);
    assert_eq!(copy.headers, r.headers);
}
