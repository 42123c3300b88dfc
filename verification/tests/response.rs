use rushttp::response::HttpResponse;
use rushttp::response::HttpResponseStatus;

#[test]
fn render_exact_octets() {
    let mut r = HttpResponse::new_with_body(
        HttpResponseStatus::OK,
        b"HTTP/1.1".to_vec(),
        b"hello".to_vec(),
    );
    r.add_header(b"Content-Type".to_vec(), b"text/plain".to_vec());
    r.add_header(b"Connection".to_vec(), b"close".to_vec());
    let expected =
        b"HTTP/1.1 200 OK\r\nContent-Type: text/plain\r\nConnection: close\r\n\r\nhello".to_vec();
    assert_eq!(r.render(), expected);
}

#[test]
fn render_without_headers_or_body() {
    let r = HttpResponse::new(HttpResponseStatus::NotFound, b"HTTP/1.0".to_vec());
    assert_eq!(r.render(), b"HTTP/1.0 404 Not Found\r\n\r\n".to_vec());
}

#[test]
fn add_header_replaces_value() {
    let mut r = HttpResponse::new(HttpResponseStatus::OK, b"HTTP/1.1".to_vec());
    r.add_header(b"Connection".to_vec(), b"keep-alive".to_vec());
    r.add_header(b"Connection".to_vec(), b"close".to_vec());
    assert_eq!(r.headers.len(), 1);
    assert_eq!(r.get_header(b"Connection"), Some(&b"close".to_vec()));
}

#[test]
fn add_header_keeps_order() {
    let mut r = HttpResponse::new(HttpResponseStatus::OK, b"HTTP/1.1".to_vec());
    r.add_header(b"A".to_vec(), b"1".to_vec());
    r.add_header(b"B".to_vec(), b"2".to_vec());
    r.add_header(b"A".to_vec(), b"3".to_vec());
    assert_eq!(r.headers.len(), 2);
    assert_eq!(r.headers[0].0, b"A".to_vec());
    assert_eq!(r.headers[0].1, b"3".to_vec());
    assert_eq!(r.headers[1].0, b"B".to_vec());
    assert_eq!(r.get_header(b"Missing"), None);
}

#[test]
fn new_with_body_fields() {
    let r = HttpResponse::new_with_body(
        HttpResponseStatus::IAmATeapot,
        b"HTTP/1.1".to_vec(),
        b"short and stout".to_vec(),
    );
    assert_eq!(r.status, HttpResponseStatus::IAmATeapot);
    assert_eq!(r.protocol, b"HTTP/1.1".to_vec());
    assert_eq!(r.body, b"short and stout".to_vec());
    assert_eq!(r.headers.len(), 0);
}

#[test]
fn status_codes_and_phrases() {
    assert_eq!(HttpResponseStatus::Continue.code(), 100);
    assert_eq!(HttpResponseStatus::OK.code(), 200);
    assert_eq!(HttpResponseStatus::BadRequest.code(), 400);
    assert_eq!(HttpResponseStatus::MethodNotAllowed.code(), 405);
    assert_eq!(HttpResponseStatus::IAmATeapot.code(), 418);
    assert_eq!(HttpResponseStatus::HTTPVersionNotSupported.code(), 505);
    assert_eq!(HttpResponseStatus::NetworkAuthenticationRequired.code(), 511);
    assert_eq!(HttpResponseStatus::OK.as_string(), "OK");
    assert_eq!(HttpResponseStatus::IAmATeapot.as_string(), "I'm A Teapot");
    assert_eq!(
        HttpResponseStatus::NetworkAuthenticationRequired.as_string(),
        "Network Authentication Required"
    );
}

#[test]
fn write_sends_rendered_octets() {
    let mut r = HttpResponse::new_with_body(
        HttpResponseStatus::OK,
        b"HTTP/1.1".to_vec(),
        b"body".to_vec(),
    );
    r.add_header(b"Connection".to_vec(), b"close".to_vec());
    let mut sink: Vec<u8> = Vec::new();
    let written = r.write(&mut sink).unwrap();
    assert_eq!(sink, r.render());
    assert_eq!(written, sink.len());
    assert_eq!(
        sink,
        b"HTTP/1.1 200 OK\r\nConnection: close\r\n\r\nbody".to_vec()
    );
}
