use rushttp::request::ContentLengthError;
use rushttp::request::HttpMethod;
use rushttp::request::HttpRequest;
use rushttp::request::HttpVersion;

fn request_with_headers(headers: Vec<(Vec<u8>, Vec<u8>)>) -> HttpRequest {
    HttpRequest {
        url: b"/".to_vec(),
        method: HttpMethod::GET,
        protocol: HttpVersion::Http11,
        headers,
    }
}

#[test]
fn content_length_present() {
    let r = request_with_headers(vec![(b"Content-Length".to_vec(), b"12".to_vec())]);
    assert_eq!(r.get_content_length(), Ok(12));
}

#[test]
fn content_length_zero() {
    let r = request_with_headers(vec![(b"Content-Length".to_vec(), b"0".to_vec())]);
    assert_eq!(r.get_content_length(), Ok(0));
}

#[test]
fn content_length_leading_plus() {
    let r = request_with_headers(vec![(b"Content-Length".to_vec(), b"+7".to_vec())]);
    assert_eq!(r.get_content_length(), Ok(7));
}

#[test]
fn content_length_missing() {
    let r = request_with_headers(vec![(b"Host".to_vec(), b"localhost".to_vec())]);
    assert_eq!(r.get_content_length(), Err(ContentLengthError::NotFound));
}

#[test]
fn content_length_not_a_number() {
    let r = request_with_headers(vec![(b"Content-Length".to_vec(), b"12a".to_vec())]);
    assert_eq!(r.get_content_length(), Err(ContentLengthError::Invalid));
}

#[test]
fn content_length_empty_value() {
    let r = request_with_headers(vec![(b"Content-Length".to_vec(), b"".to_vec())]);
    assert_eq!(r.get_content_length(), Err(ContentLengthError::Invalid));
}

#[test]
fn content_length_sign_alone() {
    let r = request_with_headers(vec![(b"Content-Length".to_vec(), b"+".to_vec())]);
    assert_eq!(r.get_content_length(), Err(ContentLengthError::Invalid));
}

#[test]
fn content_length_too_large() {
    let r = request_with_headers(vec![(
        b"Content-Length".to_vec(),
        b"99999999999999999999999999".to_vec(),
    )]);
    assert_eq!(r.get_content_length(), Err(ContentLengthError::Invalid));
}

#[test]
fn content_length_case_sensitive() {
    let r = request_with_headers(vec![(b"content-length".to_vec(), b"5".to_vec())]);
    assert_eq!(r.get_content_length(), Err(ContentLengthError::NotFound));
}

#[test]
fn content_length_last_wins() {
    let r = request_with_headers(vec![
        (b"Content-Length".to_vec(), b"3".to_vec()),
        (b"Content-Length".to_vec(), b"9".to_vec()),
    ]);
    assert_eq!(r.get_content_length(), Ok(9));
}

#[test]
fn empty_request_has_no_content_length() {
    let r = HttpRequest::new();
    assert_eq!(r.method, HttpMethod::GET);
    assert_eq!(r.protocol, HttpVersion::Http11);
    assert_eq!(r.url, Vec::<u8>::new());
    assert_eq!(r.headers.len(), 0);
    assert_eq!(r.get_content_length(), Err(ContentLengthError::NotFound));
}
