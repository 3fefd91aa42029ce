use tls_server::http::{HTTPHandler, RequestDecision, Response};

fn handler() -> HTTPHandler {
    HTTPHandler::new("public_html")
}

fn fetched(h: &HTTPHandler, buf: &[u8]) -> Option<Vec<u8>> {
    match h.parse_request(buf) {
        RequestDecision::Bad => None,
        RequestDecision::Fetch(p) => Some(p),
    }
}

#[test]
fn existing_resource_round_trip() {
    let h = handler();
    let req = b"GET /index.html HTTP/1.1\r\n";
    assert_eq!(fetched(&h, req), Some(b"index.html".to_vec()));
    let resp = h.get_response(req, Some("hello".to_string()));
    assert_eq!(resp, b"HTTP/1.1 200 OK\r\nConnection: close\r\n\r\nhello".to_vec());
}

#[test]
fn missing_resource_yields_404() {
    let h = handler();
    let req = b"GET /missing.html HTTP/1.1\r\n";
    assert_eq!(fetched(&h, req), Some(b"missing.html".to_vec()));
    let resp = h.get_response(req, None);
    assert_eq!(
        resp,
        b"HTTP/1.1 404 Not Found\r\nConnection: close\r\n\r\n404 - Not found!".to_vec()
    );
}

#[test]
fn post_yields_400_with_empty_body() {
    let h = handler();
    let req = b"POST / HTTP/1.1\r\n";
    assert_eq!(fetched(&h, req), None);
    let resp = h.get_response(req, None);
    assert_eq!(resp, b"HTTP/1.1 400 User Error\r\nConnection: close\r\n\r\n".to_vec());
}

#[test]
fn short_request_line_yields_400() {
    let h = handler();
    for req in [&b"GET /\r\n"[..], &b"GET\r\n"[..], &b""[..], &b"\r\n"[..]] {
        assert_eq!(fetched(&h, req), None, "request {:?}", req);
        let resp = h.get_response(req, None);
        assert_eq!(resp, b"HTTP/1.1 400 User Error\r\nConnection: close\r\n\r\n".to_vec());
    }
}

#[test]
fn root_target_maps_to_index_html() {
    let h = handler();
    assert_eq!(fetched(&h, b"GET / HTTP/1.1\r\n"), Some(b"index.html".to_vec()));
}

#[test]
fn target_without_leading_slash_yields_400() {
    let h = handler();
    assert_eq!(fetched(&h, b"GET index.html HTTP/1.1\r\n"), None);
}

#[test]
fn empty_target_yields_400() {
    let h = handler();
    assert_eq!(fetched(&h, b"GET  HTTP/1.1\r\n"), None);
}

#[test]
fn only_first_line_is_parsed() {
    let h = handler();
    let req = b"GET /a.html HTTP/1.1\nGET /b.html HTTP/1.1\n";
    assert_eq!(fetched(&h, req), Some(b"a.html".to_vec()));
}

#[test]
fn trailing_space_makes_an_empty_third_token() {
    let h = handler();
    assert_eq!(fetched(&h, b"GET / \n"), Some(b"index.html".to_vec()));
}

#[test]
fn doubled_space_yields_an_empty_target() {
    let h = handler();
    assert_eq!(fetched(&h, b"GET  / HTTP/1.1\r\n"), None);
}

#[test]
fn lowercase_method_yields_400() {
    let h = handler();
    assert_eq!(fetched(&h, b"get / HTTP/1.1\r\n"), None);
}

#[test]
fn extra_tokens_are_tolerated() {
    let h = handler();
    assert_eq!(fetched(&h, b"GET /x y z\r\n"), Some(b"x".to_vec()));
}

#[test]
fn response_bytes_have_status_line_header_and_body() {
    let r = Response::new(200, "hi".to_string());
    assert_eq!(r.get_bytes(), b"HTTP/1.1 200 OK\r\nConnection: close\r\n\r\nhi".to_vec());
}

#[test]
fn response_status_digits_are_decimal() {
    let r = Response::new(65535, "".to_string());
    assert_eq!(r.get_bytes(), b"HTTP/1.1 65535 Error\r\nConnection: close\r\n\r\n".to_vec());
    let r = Response::new(7, "".to_string());
    assert_eq!(r.get_bytes(), b"HTTP/1.1 7 Error\r\nConnection: close\r\n\r\n".to_vec());
}

#[test]
fn status_text_maps_every_defined_code() {
    let cases: [(u16, &str); 7] = [
        (200, "OK"),
        (301, "Redirect"),
        (400, "User Error"),
        (403, "Forbidden"),
        (404, "Not Found"),
        (500, "Server Error"),
        (418, "Error"),
    ];
    for (code, text) in cases {
        let r = Response::new(code, "".to_string());
        assert_eq!(r.status_text(), text, "status {}", code);
    }
}

#[test]
fn handler_keeps_its_document_root() {
    let h = HTTPHandler::new("public_html");
    assert_eq!(h.root(), "public_html");
}
