use rushttp::request::HttpMethod;
use rushttp::request::HttpVersion;
use rushttp::request::ParseResult;
use rushttp::request::Parser;

#[test]
fn get_complete_header() {
    let mut ctx = Parser::new();
    let test = b"GET /index.html HTTP/1.1\r\nUser-Agent: rust test\r\nHost: localhost\r\n\r\n";
    match ctx.parse(test) {
        ParseResult::Complete(r, c) => {
            assert_eq!(test.len() - c, 0);
            assert_eq!(r.method, HttpMethod::GET);
            assert_eq!(r.url, b"/index.html".to_vec());
            assert_eq!(r.protocol, HttpVersion::Http11);
            assert_eq!(r.headers.len(), 2);
            assert_eq!(r.get_header(b"User-Agent"), Some(&b"rust test".to_vec()));
            assert_eq!(r.get_header(b"Host"), Some(&b"localhost".to_vec()));
        }
        _ => panic!(),
    }
}

#[test]
fn get_complete_header_no_cr() {
    let mut ctx = Parser::new();
    let test = b"GET /index.html HTTP/1.1\nUser-Agent: rust test\nHost: localhost\n\n";
    match ctx.parse(test) {
        ParseResult::Complete(r, c) => {
            assert_eq!(test.len() - c, 0);
            assert_eq!(r.method, HttpMethod::GET);
            assert_eq!(r.url, b"/index.html".to_vec());
            assert_eq!(r.protocol, HttpVersion::Http11);
            assert_eq!(r.headers.len(), 2);
            assert_eq!(r.get_header(b"User-Agent"), Some(&b"rust test".to_vec()));
            assert_eq!(r.get_header(b"Host"), Some(&b"localhost".to_vec()));
        }
        _ => panic!(),
    }
}

#[test]
fn get_complete_header_some_cr() {
    let mut ctx = Parser::new();
    let test = b"GET /index.html HTTP/1.1\nUser-Agent:rust test\r\nHost:localhost\n\r\n";
    match ctx.parse(test) {
        ParseResult::Complete(r, c) => {
            assert_eq!(test.len() - c, 0);
            assert_eq!(r.method, HttpMethod::GET);
            assert_eq!(r.url, b"/index.html".to_vec());
            assert_eq!(r.protocol, HttpVersion::Http11);
            assert_eq!(r.headers.len(), 2);
            assert_eq!(r.get_header(b"User-Agent"), Some(&b"rust test".to_vec()));
            assert_eq!(r.get_header(b"Host"), Some(&b"localhost".to_vec()));
        }
        _ => panic!(),
    }
}

#[test]
fn get_complete_wrapped_header() {
    let mut ctx = Parser::new();
    let test =
        b"GET /index.html HTTP/1.1\r\nUser-Agent: rust test\r\n\t\tis the best test\r\nHost: localhost\r\n\r\n";
    match ctx.parse(test) {
        ParseResult::Complete(r, c) => {
            assert_eq!(test.len() - c, 0);
            assert_eq!(r.method, HttpMethod::GET);
            assert_eq!(r.url, b"/index.html".to_vec());
            assert_eq!(r.protocol, HttpVersion::Http11);
            assert_eq!(r.headers.len(), 2);
            assert_eq!(
                r.get_header(b"User-Agent"),
                Some(&b"rust test is the best test".to_vec())
            );
            assert_eq!(r.get_header(b"Host"), Some(&b"localhost".to_vec()));
        }
        _ => panic!(),
    }
}

#[test]
fn put_complete_header() {
    let mut ctx = Parser::new();
    match ctx.parse(b"PUT ") {
        ParseResult::InProgress => {}
        _ => panic!(),
    }
    let test = "/v1/api/frob?foo=bar HTTP/1.0\r\nUser-Agent: rust test\r\nHost: \
                localhost\r\nContent-Length: 12\r\n\r\nFlibble \u{1F496}"
        .as_bytes();
    match ctx.parse(test) {
        ParseResult::Complete(r, c) => {
            assert_eq!(test.len() - c, 12);
            assert_eq!(r.method, HttpMethod::PUT);
            assert_eq!(r.url, b"/v1/api/frob?foo=bar".to_vec());
            assert_eq!(r.protocol, HttpVersion::Http10);
            assert_eq!(r.headers.len(), 3);
            assert_eq!(r.get_header(b"Content-Length"), Some(&b"12".to_vec()));
            assert_eq!(r.get_header(b"User-Agent"), Some(&b"rust test".to_vec()));
            assert_eq!(r.get_header(b"Host"), Some(&b"localhost".to_vec()));
            let r = r.get_content_length().unwrap();
            assert_eq!(r, 12);
        }
        _ => panic!(),
    }
}

#[test]
fn mod_incomplete_header() {
    let mut ctx = Parser::new();
    let test = "GET /index.html HTTP/1.1\r\nUser-Agent: rust test\r\nHost: localhost\r\n"
        .as_bytes();
    match ctx.parse(test) {
        ParseResult::InProgress => {}
        _ => panic!(),
    }
}

#[test]
fn mod_bad_method() {
    let mut ctx = Parser::new();
    let test = "GET@ /index.html HTTP/1.1\r\nUser-Agent: rust test\r\nHost: localhost\r\n"
        .as_bytes();
    match ctx.parse(test) {
        ParseResult::ErrorBadMethod => {}
        _ => panic!(),
    }
}

#[test]
fn mod_bad_header() {
    let mut ctx = Parser::new();
    let test = b"GET /index.html HTTP/1.1\r\nUser-Agent: rust test\r\nHost\r\n\r\n";
    match ctx.parse(test) {
        ParseResult::Error => {}
        _ => panic!(),
    }
}

#[test]
fn complete_header() {
    let mut ctx = Parser::new();
    let test = "GET /index.html HTTP/1.1\r\nUser-Agent: rust test\r\nHost: localhost\r\n\r\n"
        .as_bytes();
    match ctx.parse(test) {
        ParseResult::Complete(r, _) => {
            assert_eq!(r.method, HttpMethod::GET);
            assert_eq!(r.url, b"/index.html".to_vec());
            assert_eq!(r.protocol, HttpVersion::Http11);
        }
        _ => panic!(),
    }
}

#[test]
fn tests_incomplete_header() {
    let mut ctx = Parser::new();
    let test = "GET /index.html HTTP/1.1\r\nUser-Agent: rust test\r\nHost: localhost\r\n"
        .as_bytes();
    match ctx.parse(test) {
        ParseResult::InProgress => {}
        _ => panic!(),
    }
}

#[test]
fn bad_protocol() {
    let mut ctx = Parser::new();
    let test = b"GET /i HTTP/2.0\r\nHost: localhost\r\n\r\n";
    match ctx.parse(test) {
        ParseResult::ErrorBadProtocol => {}
        _ => panic!(),
    }
}

#[test]
fn empty_buffer_in_progress() {
    let mut ctx = Parser::new();
    match ctx.parse(b"") {
        ParseResult::InProgress => {}
        _ => panic!(),
    }
}

#[test]
fn method_longer_than_any_token() {
    let mut ctx = Parser::new();
    let test = b"OPTIONSX /i HTTP/1.1\r\n\r\n";
    match ctx.parse(test) {
        ParseResult::ErrorBadMethod => {}
        _ => panic!(),
    }
}

#[test]
fn all_recognized_methods() {
    let methods: [(&[u8], HttpMethod); 9] = [
        (b"OPTIONS", HttpMethod::OPTIONS),
        (b"GET", HttpMethod::GET),
        (b"POST", HttpMethod::POST),
        (b"PUT", HttpMethod::PUT),
        (b"DELETE", HttpMethod::DELETE),
        (b"HEAD", HttpMethod::HEAD),
        (b"TRACE", HttpMethod::TRACE),
        (b"CONNECT", HttpMethod::CONNECT),
        (b"PATCH", HttpMethod::PATCH),
    ];
    for (token, expected) in methods {
        let mut buf = token.to_vec();
        buf.extend_from_slice(b" / HTTP/1.1\r\n\r\n");
        let mut ctx = Parser::new();
        match ctx.parse(&buf) {
            ParseResult::Complete(r, c) => {
                assert_eq!(r.method, expected);
                assert_eq!(c, buf.len());
            }
            _ => panic!(),
        }
    }
}

#[test]
fn folded_line_without_header() {
    let mut ctx = Parser::new();
    let test = b"GET / HTTP/1.1\r\n x\r\n\r\n";
    match ctx.parse(test) {
        ParseResult::Error => {}
        _ => panic!(),
    }
}

#[test]
fn whitespace_only_continuation_appends_nothing() {
    let mut ctx = Parser::new();
    let test = b"GET / HTTP/1.1\r\nHost: x\r\n \r\nA: b\r\n\r\n";
    match ctx.parse(test) {
        ParseResult::Complete(r, c) => {
            assert_eq!(c, test.len());
            assert_eq!(r.headers.len(), 2);
            assert_eq!(r.get_header(b"Host"), Some(&b"x".to_vec()));
            assert_eq!(r.get_header(b"A"), Some(&b"b".to_vec()));
        }
        _ => panic!(),
    }
}

#[test]
fn blank_line_with_bare_lf() {
    let mut ctx = Parser::new();
    let test = b"GET / HTTP/1.1\r\n\n";
    match ctx.parse(test) {
        ParseResult::Complete(r, c) => {
            assert_eq!(c, test.len());
            assert_eq!(r.headers.len(), 0);
        }
        _ => panic!(),
    }
}

#[test]
fn empty_field_name_rejected() {
    let mut ctx = Parser::new();
    let test = b"GET / HTTP/1.1\r\n: x\r\n\r\n";
    match ctx.parse(test) {
        ParseResult::Error => {}
        _ => panic!(),
    }
}

#[test]
fn empty_field_value_rejected() {
    let mut ctx = Parser::new();
    let test = b"GET / HTTP/1.1\r\nHost:\r\n\r\n";
    match ctx.parse(test) {
        ParseResult::Error => {}
        _ => panic!(),
    }
}

#[test]
fn bad_url_encoding() {
    let mut ctx = Parser::new();
    let test = b"GET /\xff HTTP/1.1\r\n\r\n";
    match ctx.parse(test) {
        ParseResult::ErrorBadURL => {}
        _ => panic!(),
    }
}

#[test]
fn bad_header_name_encoding() {
    let mut ctx = Parser::new();
    let test = b"GET / HTTP/1.1\r\nH\xffost: x\r\n\r\n";
    match ctx.parse(test) {
        ParseResult::ErrorBadHeader => {}
        _ => panic!(),
    }
}

#[test]
fn bad_header_value_encoding() {
    let mut ctx = Parser::new();
    let test = b"GET / HTTP/1.1\r\nHost: a\xffb\r\n\r\n";
    match ctx.parse(test) {
        ParseResult::ErrorBadHeaderValue => {}
        _ => panic!(),
    }
}

#[test]
fn multibyte_value_accepted() {
    let mut ctx = Parser::new();
    let test = "GET / HTTP/1.1\r\nX-Note: na\u{00EF}ve \u{20AC} \u{1F496}\r\n\r\n".as_bytes();
    match ctx.parse(test) {
        ParseResult::Complete(r, c) => {
            assert_eq!(c, test.len());
            assert_eq!(
                r.get_header(b"X-Note"),
                Some(&"na\u{00EF}ve \u{20AC} \u{1F496}".as_bytes().to_vec())
            );
        }
        _ => panic!(),
    }
}

#[test]
fn duplicate_header_kept_in_order_last_wins_on_lookup() {
    let mut ctx = Parser::new();
    let test = b"GET / HTTP/1.1\r\nHost: first\r\nHost: second\r\n\r\n";
    match ctx.parse(test) {
        ParseResult::Complete(r, _) => {
            assert_eq!(r.headers.len(), 2);
            assert_eq!(r.headers[0].1, b"first".to_vec());
            assert_eq!(r.headers[1].1, b"second".to_vec());
            assert_eq!(r.get_header(b"Host"), Some(&b"second".to_vec()));
        }
        _ => panic!(),
    }
}

/// Feeding a buffer in parts, at every split point, reaches the same
/// outcome as feeding it whole.
#[test]
fn split_invariance_every_split() {
    let test = b"GET /index.html HTTP/1.1\r\nUser-Agent: rust test\r\nHost: localhost\r\n\r\n";
    let (whole_request, whole_consumed) = {
        let mut ctx = Parser::new();
        match ctx.parse(test) {
            ParseResult::Complete(r, c) => (r, c),
            _ => panic!(),
        }
    };
    assert_eq!(whole_consumed, test.len());
    for split in 0..=test.len() {
        let mut ctx = Parser::new();
        let first = ctx.parse(&test[..split]);
        if split == test.len() {
            match first {
                ParseResult::Complete(_, c) => assert_eq!(c, split),
                _ => panic!(),
            }
            continue;
        }
        match first {
            ParseResult::InProgress => {}
            _ => panic!(),
        }
        match ctx.parse(&test[split..]) {
            ParseResult::Complete(r, c) => {
                assert_eq!(split + c, whole_consumed);
                assert_eq!(r.method, whole_request.method);
                assert_eq!(r.url, whole_request.url);
                assert_eq!(r.protocol, whole_request.protocol);
                assert_eq!(r.headers, whole_request.headers);
            }
            _ => panic!(),
        }
    }
}

/// Feeding octet by octet reaches the same outcome as feeding the whole
/// buffer at once.
#[test]
fn split_invariance_byte_by_byte() {
    let test = b"PUT /x HTTP/1.0\r\nContent-Length: 3\r\n\r\nabc";
    let mut ctx = Parser::new();
    let mut outcome = None;
    for (idx, b) in test.iter().enumerate() {
        match ctx.parse(std::slice::from_ref(b)) {
            ParseResult::InProgress => {}
            ParseResult::Complete(r, c) => {
                assert_eq!(c, 1);
                outcome = Some((r, idx + 1));
                break;
            }
            _ => panic!(),
        }
    }
    let (request, consumed) = outcome.expect("never completed");
    let mut whole = Parser::new();
    match whole.parse(test) {
        ParseResult::Complete(r, c) => {
            assert_eq!(c, consumed);
            assert_eq!(r.method, request.method);
            assert_eq!(r.url, request.url);
            assert_eq!(r.protocol, request.protocol);
            assert_eq!(r.headers, request.headers);
        }
        _ => panic!(),
    }
}

/// Two parsers fed the same octets report the same outcome.
#[test]
fn determinism_two_instances() {
    let test = b"GET / HTTP/1.1\r\nHost: h\r\n\r\n";
    let mut a = Parser::new();
    let mut b = Parser::new();
    match (a.parse(test), b.parse(test)) {
        (ParseResult::Complete(ra, ca), ParseResult::Complete(rb, cb)) => {
            assert_eq!(ca, cb);
            assert_eq!(ra.method, rb.method);
            assert_eq!(ra.url, rb.url);
            assert_eq!(ra.protocol, rb.protocol);
            assert_eq!(ra.headers, rb.headers);
        }
        _ => panic!(),
    }
}

/// Replaying exactly the consumed octets to a fresh parser reproduces the
/// same request; fewer than that never completes.
#[test]
fn exact_consumption() {
    let test = b"GET / HTTP/1.1\r\nHost: h\r\n\r\ntrailing body bytes";
    let (request, consumed) = {
        let mut ctx = Parser::new();
        match ctx.parse(test) {
            ParseResult::Complete(r, c) => (r, c),
            _ => panic!(),
        }
    };
    assert!(consumed <= test.len());
    let mut replay = Parser::new();
    match replay.parse(&test[..consumed]) {
        ParseResult::Complete(r, c) => {
            assert_eq!(c, consumed);
            assert_eq!(r.method, request.method);
            assert_eq!(r.url, request.url);
            assert_eq!(r.protocol, request.protocol);
            assert_eq!(r.headers, request.headers);
        }
        _ => panic!(),
    }
    for m in 0..consumed {
        let mut short = Parser::new();
        match short.parse(&test[..m]) {
            ParseResult::InProgress => {}
            _ => panic!(),
        }
    }
}
