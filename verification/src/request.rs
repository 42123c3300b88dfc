//! The request value object and the streaming header parser.
//!
//! `Parser` owns the accumulated state of one header section. Each call to
//! `parse` consumes the given octets one at a time and reports whether more
//! input is needed, the header section is complete, or the input violates
//! the grammar. The contract of `parse` is exact: its outcome and the
//! parser's new state equal `machine::feed` applied to the parser's model
//! and the octets fed.

use crate::encoding::is_valid_utf8;
use crate::machine::append_to_last;
use crate::machine::classify;
use crate::machine::feed;
use crate::machine::feed_from;
use crate::machine::init_model;
use crate::machine::method_of;
use crate::machine::method_token;
use crate::machine::request_of;
use crate::machine::step;
use crate::machine::version_of;
use crate::machine::version_token;
use crate::machine::CharType;
use crate::machine::ErrorKind;
use crate::machine::Outcome;
use crate::machine::ParseState;
use crate::machine::ParserModel;
use crate::machine::RequestModel;
use crate::machine::Step;
use vstd::prelude::*;

verus! {

/// The HTTP method of a request. Only the nine standard request methods are
/// recognized; any other token in the method position is rejected.
#[derive(Debug, Clone, Copy, PartialEq, Eq, Structural)]
#[allow(non_camel_case_types)]
pub enum HttpMethod {
    OPTIONS,
    GET,
    POST,
    PUT,
    DELETE,
    HEAD,
    TRACE,
    CONNECT,
    PATCH,
}

/// The protocol version of a request. Only HTTP/1.0 and HTTP/1.1 are
/// recognized.
#[derive(Debug, Clone, Copy, PartialEq, Eq, Structural)]
pub enum HttpVersion {
    Http10,
    Http11,
}

/// The model of a header list: the ordered pairs, each as its octets.
pub open spec fn headers_view(h: Seq<(Vec<u8>, Vec<u8>)>) -> Seq<(Seq<u8>, Seq<u8>)> {
    Seq::new(h.len(), |i: int| (h[i].0@, h[i].1@))
}

/// An HTTP request: the parsed request line and the ordered header list.
/// The request-target and the header fields are octet strings; they are
/// checked to be well-formed UTF-8 but are not decoded further.
#[derive(Debug)]
pub struct HttpRequest {
    /// The request-target the client sent, as its octets.
    pub url: Vec<u8>,
    /// The method of the request.
    pub method: HttpMethod,
    /// The protocol version of the request.
    pub protocol: HttpVersion,
    /// The header fields, in the order they were sent. A folded continuation
    /// line extends the value of the pair before it; it never adds a pair.
    pub headers: Vec<(Vec<u8>, Vec<u8>)>,
}

impl View for HttpRequest {
    type V = RequestModel;

    open spec fn view(&self) -> RequestModel {
        RequestModel {
            method: self.method,
            url: self.url@,
            protocol: self.protocol,
            headers: headers_view(self.headers@),
        }
    }
}

/// The header name whose value `get_content_length` reads: the octets of
/// "Content-Length", in US-ASCII. Lookup is case-sensitive.
pub open spec fn content_length_key() -> Seq<u8> {
    seq![0x43u8, 0x6f, 0x6e, 0x74, 0x65, 0x6e, 0x74, 0x2d, 0x4c, 0x65, 0x6e, 0x67, 0x74, 0x68]
}

/// The value of the last header pair with the given name, or `None` when no
/// pair has it. The last pair wins, matching the view of the ordered list as
/// a mapping built by inserting the pairs in order.
pub open spec fn lookup_header(h: Seq<(Seq<u8>, Seq<u8>)>, name: Seq<u8>) -> Option<Seq<u8>>
    decreases h.len(),
{
    if h.len() == 0 {
        None
    } else if h.last().0 == name {
        Some(h.last().1)
    } else {
        lookup_header(h.drop_last(), name)
    }
}

/// Whether the octet is a decimal digit.
pub open spec fn is_ascii_digit(b: u8) -> bool {
    0x30 <= b <= 0x39
}

/// Whether every octet of the sequence is a decimal digit.
pub open spec fn all_digits(s: Seq<u8>) -> bool {
    forall|i: int| 0 <= i < s.len() ==> is_ascii_digit(#[trigger] s[i])
}

/// The number the digit sequence denotes in decimal.
pub open spec fn digits_value(s: Seq<u8>) -> int
    recommends
        all_digits(s),
    decreases s.len(),
{
    if s.len() == 0 {
        0
    } else {
        10 * digits_value(s.drop_last()) + (s.last() - 0x30)
    }
}

/// The digit part of a number token: an optional leading plus sign is
/// allowed, as std's unsigned parsing allows it.
pub open spec fn number_digits(s: Seq<u8>) -> Seq<u8> {
    if s.len() > 0 && s[0] == 0x2b {
        s.skip(1)
    } else {
        s
    }
}

/// Whether the octets form a non-negative decimal number token: at least
/// one digit, nothing but digits after the optional sign.
pub open spec fn is_number_token(s: Seq<u8>) -> bool {
    number_digits(s).len() > 0 && all_digits(number_digits(s))
}

/// The number a number token denotes.
pub open spec fn number_value(s: Seq<u8>) -> int
    recommends
        is_number_token(s),
{
    digits_value(number_digits(s))
}

/// Why `get_content_length` found no usable value.
#[derive(Debug, Clone, Copy, PartialEq, Eq, Structural)]
pub enum ContentLengthError {
    /// No header of that name is present.
    NotFound,
    /// The value is not a decimal number, or does not fit in `usize`.
    Invalid,
}

proof fn lemma_digits_value_nonneg(s: Seq<u8>)
    requires
        all_digits(s),
    ensures
        digits_value(s) >= 0,
    decreases s.len(),
{
    if s.len() > 0 {
        assert(all_digits(s.drop_last()));
        lemma_digits_value_nonneg(s.drop_last());
    }
}

proof fn lemma_digits_value_prefix(s: Seq<u8>, m: int)
    requires
        0 <= m <= s.len(),
        all_digits(s),
    ensures
        digits_value(s) >= digits_value(s.take(m)),
    decreases s.len(),
{
    if m < s.len() {
        assert(all_digits(s.drop_last()));
        lemma_digits_value_prefix(s.drop_last(), m);
        assert(s.drop_last().take(m) =~= s.take(m));
        lemma_digits_value_nonneg(s.drop_last());
    } else {
        assert(s.take(m) =~= s);
    }
}

/// Whether two byte strings hold the same octets.
pub(crate) fn bytes_equal(a: &[u8], b: &[u8]) -> (r: bool)
    ensures
        r == (a@ == b@),
{
    let n: usize = a.len();
    if n != b.len() {
        return false;
    }
    let mut i: usize = 0;
    while i < n
        invariant
            0 <= i <= n,
            n == a@.len() == b@.len(),
            forall|k: int| 0 <= k < i ==> a@[k] == b@[k],
        decreases n - i,
    {
        if a[i] != b[i] {
            return false;
        }
        i = i + 1;
    }
    proof {
        assert(a@ =~= b@);
    }
    true
}

/// Whether the octets are exactly the header name "Content-Length".
fn is_content_length_name(v: &Vec<u8>) -> (r: bool)
    ensures
        r == (v@ == content_length_key()),
{
    let n: usize = v.len();
    // "Content-Length"
    let r = n == 14 && v[0] == 0x43 && v[1] == 0x6f && v[2] == 0x6e && v[3] == 0x74 && v[4] == 0x65
        && v[5] == 0x6e && v[6] == 0x74 && v[7] == 0x2d && v[8] == 0x4c && v[9] == 0x65 && v[10]
        == 0x6e && v[11] == 0x67 && v[12] == 0x74 && v[13] == 0x68;
    proof {
        if r {
            assert(v@ =~= content_length_key());
        }
    }
    r
}

/// Parses the octets as a non-negative decimal number. Reports `None` when
/// they are no number token, or when the number does not fit in `usize`.
fn parse_decimal(v: &Vec<u8>) -> (r: Option<usize>)
    ensures
        r == if is_number_token(v@) && number_value(v@) <= usize::MAX {
            Some(number_value(v@) as usize)
        } else {
            None::<usize>
        },
{
    let n: usize = v.len();
    let mut start: usize = 0;
    if n > 0 && v[0] == 0x2b {
        start = 1;
    }
    let ghost digits = number_digits(v@);
    proof {
        assert(digits =~= v@.subrange(start as int, n as int));
    }
    if start >= n {
        // No digits at all.
        return None;
    }
    let mut acc: usize = 0;
    let mut j: usize = start;
    #[verifier::loop_isolation(false)]
    while j < n
        invariant
            start <= j <= n,
            all_digits(v@.subrange(start as int, j as int)),
            acc == digits_value(v@.subrange(start as int, j as int)),
        decreases n - j,
    {
        let b = v[j];
        let ghost upto_j = v@.subrange(start as int, j as int);
        let ghost upto_j1 = v@.subrange(start as int, j as int + 1);
        proof {
            assert(upto_j1.drop_last() =~= upto_j);
            assert(upto_j1.last() == b);
        }
        if !(0x30 <= b && b <= 0x39) {
            proof {
                assert(digits[j - start] == b);
                assert(!all_digits(digits));
            }
            return None;
        }
        let d: usize = (b - 0x30) as usize;
        let next = match acc.checked_mul(10) {
            Some(x) => x.checked_add(d),
            None => None,
        };
        match next {
            Some(x) => {
                acc = x;
            },
            None => {
                // The number exceeds usize: if the remaining octets are all
                // digits the value only grows further, and if they are not,
                // the token is invalid; either way there is nothing to
                // return.
                proof {
                    if all_digits(digits) {
                        lemma_digits_value_prefix(digits, j + 1 - start as int);
                        assert(digits.take(j + 1 - start as int) =~= upto_j1);
                        assert(number_value(v@) > usize::MAX);
                    }
                }
                return None;
            },
        }
        j = j + 1;
    }
    proof {
        assert(v@.subrange(start as int, n as int) =~= digits);
        assert(digits.len() > 0);
    }
    Some(acc)
}

impl HttpRequest {
    /// An empty request: method GET, protocol HTTP/1.1, no request-target,
    /// no headers. The parser overwrites every slot before it hands a
    /// request out; this is the blank it starts from.
    pub fn new() -> (r: HttpRequest)
        ensures
            r@ == (RequestModel {
                method: HttpMethod::GET,
                url: Seq::empty(),
                protocol: HttpVersion::Http11,
                headers: Seq::empty(),
            }),
    {
        let r = HttpRequest {
            url: Vec::new(),
            method: HttpMethod::GET,
            protocol: HttpVersion::Http11,
            headers: Vec::new(),
        };
        proof {
            assert(r@ =~= RequestModel {
                method: HttpMethod::GET,
                url: Seq::empty(),
                protocol: HttpVersion::Http11,
                headers: Seq::empty(),
            });
        }
        r
    }

    /// The value of the named header, or `None` when the request has no
    /// header of that name. The name is matched octet for octet,
    /// case-sensitively; of several headers with the name, the last wins.
    pub fn get_header(&self, name: &[u8]) -> (r: Option<&Vec<u8>>)
        ensures
            match lookup_header(self@.headers, name@) {
                Some(v) => r matches Some(rv) && rv@ == v,
                None => r is None,
            },
    {
        let n: usize = self.headers.len();
        let mut j: usize = n;
        proof {
            assert(headers_view(self.headers@).take(n as int) =~= headers_view(self.headers@));
        }
        #[verifier::loop_isolation(false)]
        while j > 0
            invariant
                0 <= j <= n,
                lookup_header(headers_view(self.headers@).take(j as int), name@) == lookup_header(
                    self@.headers,
                    name@,
                ),
            decreases j,
        {
            j = j - 1;
            let ghost hv = headers_view(self.headers@);
            proof {
                assert(hv.take(j as int + 1).last() == hv[j as int]);
                assert(hv.take(j as int + 1).drop_last() =~= hv.take(j as int));
            }
            if bytes_equal(self.headers[j].0.as_slice(), name) {
                return Some(&self.headers[j].1);
            }
        }
        proof {
            assert(headers_view(self.headers@).take(0) =~= Seq::<(Seq<u8>, Seq<u8>)>::empty());
        }
        None
    }

    /// The value of the `Content-Length` header read as a non-negative
    /// decimal number. Reports `NotFound` when the header is absent, and
    /// `Invalid` when its value is not a decimal number token or does not
    /// fit in `usize`.
    pub fn get_content_length(&self) -> (r: Result<usize, ContentLengthError>)
        ensures
            match lookup_header(self@.headers, content_length_key()) {
                None => r == Err::<usize, ContentLengthError>(ContentLengthError::NotFound),
                Some(v) => if is_number_token(v) && number_value(v) <= usize::MAX {
                    r == Ok::<usize, ContentLengthError>(number_value(v) as usize)
                } else {
                    r == Err::<usize, ContentLengthError>(ContentLengthError::Invalid)
                },
            },
    {
        let n: usize = self.headers.len();
        let mut j: usize = n;
        proof {
            assert(headers_view(self.headers@).take(n as int) =~= headers_view(self.headers@));
        }
        #[verifier::loop_isolation(false)]
        while j > 0
            invariant
                0 <= j <= n,
                lookup_header(headers_view(self.headers@).take(j as int), content_length_key())
                    == lookup_header(self@.headers, content_length_key()),
            decreases j,
        {
            j = j - 1;
            let ghost hv = headers_view(self.headers@);
            proof {
                assert(hv.take(j as int + 1).last() == hv[j as int]);
                assert(hv.take(j as int + 1).drop_last() =~= hv.take(j as int));
            }
            if is_content_length_name(&self.headers[j].0) {
                return match parse_decimal(&self.headers[j].1) {
                    Some(x) => Ok(x),
                    None => Err(ContentLengthError::Invalid),
                };
            }
        }
        proof {
            assert(headers_view(self.headers@).take(0) =~= Seq::<(Seq<u8>, Seq<u8>)>::empty());
        }
        Err(ContentLengthError::NotFound)
    }
}

/// What one `parse` call reports.
#[derive(Debug)]
pub enum ParseResult {
    /// A grammar violation in a structural position.
    Error,
    /// A field name that is not valid UTF-8.
    ErrorBadHeader,
    /// A field value that is not valid UTF-8.
    ErrorBadHeaderValue,
    /// An unrecognized token in the method position.
    ErrorBadMethod,
    /// An unrecognized token in the protocol position.
    ErrorBadProtocol,
    /// A request-target that is not valid UTF-8.
    ErrorBadURL,
    /// The octets were consumed without completing the header section; feed
    /// more.
    InProgress,
    /// The header section is complete. Carries the request and the number of
    /// octets consumed from the buffer, including the terminating LF; any
    /// octets after that belong to the caller.
    Complete(HttpRequest, usize),
}

/// The `ParseResult` that reports an error of the given kind.
pub open spec fn error_result(k: ErrorKind) -> ParseResult {
    match k {
        ErrorKind::Syntax => ParseResult::Error,
        ErrorKind::BadMethod => ParseResult::ErrorBadMethod,
        ErrorKind::BadUrl => ParseResult::ErrorBadURL,
        ErrorKind::BadProtocol => ParseResult::ErrorBadProtocol,
        ErrorKind::BadHeader => ParseResult::ErrorBadHeader,
        ErrorKind::BadHeaderValue => ParseResult::ErrorBadHeaderValue,
    }
}

/// What one octet did to the parser.
enum Advance {
    More,
    Fail(ErrorKind),
    Done(HttpRequest),
}

/// The streaming header parser. It holds the current lexical state, the
/// scratch buffer of the current lexeme, the committed request-line slots,
/// the committed header pairs, and the field name waiting for its value.
#[derive(Debug)]
pub struct Parser {
    state: ParseState,
    temp: Vec<u8>,
    url: Vec<u8>,
    method: HttpMethod,
    version: HttpVersion,
    headers: Vec<(Vec<u8>, Vec<u8>)>,
    key: Vec<u8>,
}

impl View for Parser {
    type V = ParserModel;

    closed spec fn view(&self) -> ParserModel {
        ParserModel {
            state: self.state,
            temp: self.temp@,
            method: self.method,
            url: self.url@,
            version: self.version,
            headers: headers_view(self.headers@),
            key: self.key@,
        }
    }
}

/// Classifies one octet, as `machine::classify` does.
fn classify_byte(b: u8) -> (r: CharType)
    ensures
        r == classify(b),
{
    if b == 0x20 || b == 0x09 {
        CharType::Space
    } else if b == 0x0d {
        CharType::CR
    } else if b == 0x0a {
        CharType::LF
    } else if b == 0x3a {
        CharType::Colon
    } else {
        CharType::Other
    }
}

/// The method named by the given token, or `None` for an unrecognized one.
fn method_from_bytes(v: &Vec<u8>) -> (r: Option<HttpMethod>)
    ensures
        r == method_of(v@),
{
    let n: usize = v.len();
    let r = if n == 3 && v[0] == 0x47 && v[1] == 0x45 && v[2] == 0x54 {
        // "GET"
        Some(HttpMethod::GET)
    } else if n == 3 && v[0] == 0x50 && v[1] == 0x55 && v[2] == 0x54 {
        // "PUT"
        Some(HttpMethod::PUT)
    } else if n == 4 && v[0] == 0x50 && v[1] == 0x4f && v[2] == 0x53 && v[3] == 0x54 {
        // "POST"
        Some(HttpMethod::POST)
    } else if n == 4 && v[0] == 0x48 && v[1] == 0x45 && v[2] == 0x41 && v[3] == 0x44 {
        // "HEAD"
        Some(HttpMethod::HEAD)
    } else if n == 5 && v[0] == 0x54 && v[1] == 0x52 && v[2] == 0x41 && v[3] == 0x43 && v[4]
        == 0x45 {
        // "TRACE"
        Some(HttpMethod::TRACE)
    } else if n == 5 && v[0] == 0x50 && v[1] == 0x41 && v[2] == 0x54 && v[3] == 0x43 && v[4]
        == 0x48 {
        // "PATCH"
        Some(HttpMethod::PATCH)
    } else if n == 6 && v[0] == 0x44 && v[1] == 0x45 && v[2] == 0x4c && v[3] == 0x45 && v[4] == 0x54
        && v[5] == 0x45 {
        // "DELETE"
        Some(HttpMethod::DELETE)
    } else if n == 7 && v[0] == 0x4f && v[1] == 0x50 && v[2] == 0x54 && v[3] == 0x49 && v[4] == 0x4f
        && v[5] == 0x4e && v[6] == 0x53 {
        // "OPTIONS"
        Some(HttpMethod::OPTIONS)
    } else if n == 7 && v[0] == 0x43 && v[1] == 0x4f && v[2] == 0x4e && v[3] == 0x4e && v[4] == 0x45
        && v[5] == 0x43 && v[6] == 0x54 {
        // "CONNECT"
        Some(HttpMethod::CONNECT)
    } else {
        None
    };
    proof {
        if r is Some {
            assert(v@ =~= method_token(r->0));
        }
    }
    r
}

/// The protocol version named by the given token, or `None` for an
/// unrecognized one.
fn version_from_bytes(v: &Vec<u8>) -> (r: Option<HttpVersion>)
    ensures
        r == version_of(v@),
{
    let n: usize = v.len();
    // "HTTP/1." then the minor version digit
    let r = if n == 8 && v[0] == 0x48 && v[1] == 0x54 && v[2] == 0x54 && v[3] == 0x50 && v[4]
        == 0x2f && v[5] == 0x31 && v[6] == 0x2e {
        if v[7] == 0x30 {
            Some(HttpVersion::Http10)
        } else if v[7] == 0x31 {
            Some(HttpVersion::Http11)
        } else {
            None
        }
    } else {
        None
    };
    proof {
        if r is Some {
            assert(v@ =~= version_token(r->0));
        }
    }
    r
}

impl Parser {
    /// A fresh parser, in the initial state with nothing accumulated.
    pub fn new() -> (p: Parser)
        ensures
            p@ == init_model(),
    {
        let p = Parser {
            state: ParseState::Method,
            temp: Vec::new(),
            url: Vec::new(),
            method: HttpMethod::GET,
            version: HttpVersion::Http11,
            headers: Vec::new(),
            key: Vec::new(),
        };
        proof {
            assert(p@ =~= init_model());
        }
        p
    }

    /// Completes the request from the accumulated state, moving the
    /// accumulated values out of the parser.
    fn take_request(&mut self) -> (q: HttpRequest)
        ensures
            q@ == request_of(old(self)@),
    {
        let url = self.url.split_off(0);
        let headers = self.headers.split_off(0);
        let q = HttpRequest { url, method: self.method, protocol: self.version, headers };
        proof {
            assert(q@ =~= request_of(old(self)@));
        }
        q
    }

    /// Consumes one octet, as `machine::step` prescribes.
    fn advance(&mut self, c: u8) -> (r: Advance)
        ensures
            match step(old(self)@, c) {
                Step::Next { next } => r is More && final(self)@ == next,
                Step::Fail { kind } => r matches Advance::Fail(k) && k == kind,
                Step::Done { request } => r matches Advance::Done(q) && q@ == request,
            },
    {
        let ct = classify_byte(c);
        match self.state {
            ParseState::Method => match ct {
                CharType::Other => {
                    self.temp.push(c);
                    Advance::More
                },
                CharType::Space => {
                    let tok = self.temp.split_off(0);
                    proof {
                        assert(tok@ == old(self)@.temp);
                        assert(self.temp@ =~= Seq::<u8>::empty());
                    }
                    match method_from_bytes(&tok) {
                        Some(m) => {
                            self.method = m;
                            self.state = ParseState::URL;
                            Advance::More
                        },
                        None => Advance::Fail(ErrorKind::BadMethod),
                    }
                },
                _ => Advance::Fail(ErrorKind::Syntax),
            },
            ParseState::URL => match ct {
                CharType::Other | CharType::Colon => {
                    self.temp.push(c);
                    Advance::More
                },
                CharType::Space => {
                    let tok = self.temp.split_off(0);
                    proof {
                        assert(tok@ == old(self)@.temp);
                        assert(self.temp@ =~= Seq::<u8>::empty());
                    }
                    if is_valid_utf8(tok.as_slice()) {
                        self.url = tok;
                        self.state = ParseState::Protocol;
                        Advance::More
                    } else {
                        Advance::Fail(ErrorKind::BadUrl)
                    }
                },
                _ => Advance::Fail(ErrorKind::Syntax),
            },
            ParseState::Protocol => match ct {
                CharType::Other => {
                    self.temp.push(c);
                    Advance::More
                },
                CharType::CR => {
                    let tok = self.temp.split_off(0);
                    proof {
                        assert(tok@ == old(self)@.temp);
                        assert(self.temp@ =~= Seq::<u8>::empty());
                    }
                    match version_from_bytes(&tok) {
                        Some(ver) => {
                            self.version = ver;
                            self.state = ParseState::ProtocolEOL;
                            Advance::More
                        },
                        None => Advance::Fail(ErrorKind::BadProtocol),
                    }
                },
                CharType::LF => {
                    let tok = self.temp.split_off(0);
                    proof {
                        assert(tok@ == old(self)@.temp);
                        assert(self.temp@ =~= Seq::<u8>::empty());
                    }
                    match version_from_bytes(&tok) {
                        Some(ver) => {
                            self.version = ver;
                            self.state = ParseState::KeyStart;
                            Advance::More
                        },
                        None => Advance::Fail(ErrorKind::BadProtocol),
                    }
                },
                CharType::Space | CharType::Colon => Advance::Fail(ErrorKind::BadProtocol),
            },
            ParseState::ProtocolEOL => match ct {
                CharType::LF => {
                    self.state = ParseState::KeyStart;
                    Advance::More
                },
                _ => Advance::Fail(ErrorKind::Syntax),
            },
            ParseState::KeyStart => match ct {
                CharType::Space => {
                    self.state = ParseState::WrappedValueStart;
                    Advance::More
                },
                CharType::LF => Advance::Done(self.take_request()),
                CharType::CR => {
                    self.state = ParseState::FinalEOL;
                    Advance::More
                },
                CharType::Other => {
                    self.temp.push(c);
                    self.state = ParseState::Key;
                    Advance::More
                },
                CharType::Colon => Advance::Fail(ErrorKind::Syntax),
            },
            ParseState::Key => match ct {
                CharType::Other => {
                    self.temp.push(c);
                    Advance::More
                },
                CharType::Colon => {
                    let tok = self.temp.split_off(0);
                    proof {
                        assert(tok@ == old(self)@.temp);
                        assert(self.temp@ =~= Seq::<u8>::empty());
                    }
                    if is_valid_utf8(tok.as_slice()) {
                        self.key = tok;
                        self.state = ParseState::ValueStart;
                        Advance::More
                    } else {
                        Advance::Fail(ErrorKind::BadHeader)
                    }
                },
                _ => Advance::Fail(ErrorKind::Syntax),
            },
            ParseState::ValueStart => match ct {
                CharType::Space => Advance::More,
                CharType::Other => {
                    self.temp.push(c);
                    self.state = ParseState::Value;
                    Advance::More
                },
                _ => Advance::Fail(ErrorKind::Syntax),
            },
            ParseState::Value => match ct {
                CharType::Other | CharType::Space | CharType::Colon => {
                    self.temp.push(c);
                    Advance::More
                },
                CharType::CR => {
                    if self.commit_value() {
                        self.state = ParseState::ValueEOL;
                        Advance::More
                    } else {
                        Advance::Fail(ErrorKind::BadHeaderValue)
                    }
                },
                CharType::LF => {
                    if self.commit_value() {
                        self.state = ParseState::KeyStart;
                        Advance::More
                    } else {
                        Advance::Fail(ErrorKind::BadHeaderValue)
                    }
                },
            },
            ParseState::ValueEOL => match ct {
                CharType::LF => {
                    self.state = ParseState::KeyStart;
                    Advance::More
                },
                _ => Advance::Fail(ErrorKind::Syntax),
            },
            ParseState::WrappedValueStart => match ct {
                CharType::Space => Advance::More,
                CharType::Other | CharType::Colon => {
                    // The continuation joins the previous value with exactly
                    // one space, however much whitespace led the line.
                    self.temp.push(0x20);
                    self.temp.push(c);
                    self.state = ParseState::WrappedValue;
                    Advance::More
                },
                CharType::CR => {
                    self.state = ParseState::WrappedValueEOL;
                    Advance::More
                },
                CharType::LF => Advance::Fail(ErrorKind::Syntax),
            },
            ParseState::WrappedValue => match ct {
                CharType::Other | CharType::Colon | CharType::Space => {
                    self.temp.push(c);
                    Advance::More
                },
                CharType::CR => {
                    let frag = self.temp.split_off(0);
                    proof {
                        assert(frag@ == old(self)@.temp);
                        assert(self.temp@ =~= Seq::<u8>::empty());
                    }
                    if !is_valid_utf8(frag.as_slice()) {
                        Advance::Fail(ErrorKind::BadHeaderValue)
                    } else {
                        match self.headers.pop() {
                            Some(pair) => {
                                let (name, mut value) = pair;
                                let mut frag = frag;
                                value.append(&mut frag);
                                self.headers.push((name, value));
                                self.state = ParseState::WrappedValueEOL;
                                proof {
                                    assert(self@.headers =~= append_to_last(old(self)@));
                                }
                                Advance::More
                            },
                            None => Advance::Fail(ErrorKind::Syntax),
                        }
                    }
                },
                CharType::LF => Advance::Fail(ErrorKind::Syntax),
            },
            ParseState::WrappedValueEOL => match ct {
                CharType::LF => {
                    self.state = ParseState::KeyStart;
                    Advance::More
                },
                _ => Advance::Fail(ErrorKind::Syntax),
            },
            ParseState::FinalEOL => match ct {
                CharType::LF => Advance::Done(self.take_request()),
                _ => Advance::Fail(ErrorKind::Syntax),
            },
        }
    }

    /// Commits the scratch buffer as the value of the pending field name,
    /// appending the pair to the header list. Reports false, changing no
    /// committed state, when the value is not valid UTF-8.
    fn commit_value(&mut self) -> (ok: bool)
        ensures
            old(self)@.state == ParseState::Value ==> {
                if vstd::utf8::valid_utf8(old(self)@.temp) {
                    ok && final(self)@ =~= ParserModel {
                        temp: Seq::empty(),
                        headers: old(self)@.headers.push((old(self)@.key, old(self)@.temp)),
                        key: Seq::empty(),
                        ..old(self)@
                    }
                } else {
                    !ok
                }
            },
    {
        let val = self.temp.split_off(0);
        proof {
            assert(val@ == old(self)@.temp);
            assert(self.temp@ =~= Seq::<u8>::empty());
        }
        if is_valid_utf8(val.as_slice()) {
            let name = self.key.split_off(0);
            proof {
                assert(name@ == old(self)@.key);
                assert(self.key@ =~= Seq::<u8>::empty());
            }
            self.headers.push((name, val));
            proof {
                assert(self@.headers =~= old(self)@.headers.push(
                    (old(self)@.key, old(self)@.temp),
                ));
            }
            true
        } else {
            false
        }
    }

    /// Consumes the given octets, one at a time, and reports the outcome of
    /// this call: the outcome, and the parser's state after it, are exactly
    /// those of running the state machine from the parser's present state
    /// over the octets.
    ///
    /// After a `Complete` or any error the parser is spent; nothing is
    /// promised of calls made after a terminal outcome.
    #[verifier::loop_isolation(false)]
    pub fn parse(&mut self, buffer: &[u8]) -> (r: ParseResult)
        ensures
            match feed(old(self)@, buffer@) {
                Outcome::InProgress { next } => r is InProgress && final(self)@ == next,
                Outcome::Failed { kind } => r == error_result(kind),
                Outcome::Finished { request, consumed } => {
                    &&& r matches ParseResult::Complete(q, n)
                    &&& q@ == request
                    &&& n == consumed
                },
            },
    {
        let ghost start = self@;
        let n: usize = buffer.len();
        let mut i: usize = 0;
        while i < n
            invariant
                0 <= i <= n,
                n == buffer@.len(),
                feed(start, buffer@) == feed_from(self@, buffer@, i as int),
            decreases n - i,
        {
            let c = buffer[i];
            let ghost before = self@;
            match self.advance(c) {
                Advance::More => {
                    proof {
                        assert(feed_from(before, buffer@, i as int) == feed_from(
                            self@,
                            buffer@,
                            i as int + 1,
                        ));
                    }
                },
                Advance::Fail(k) => {
                    proof {
                        assert(feed_from(before, buffer@, i as int) == (Outcome::Failed {
                            kind: k,
                        }));
                    }
                    return match k {
                        ErrorKind::Syntax => ParseResult::Error,
                        ErrorKind::BadMethod => ParseResult::ErrorBadMethod,
                        ErrorKind::BadUrl => ParseResult::ErrorBadURL,
                        ErrorKind::BadProtocol => ParseResult::ErrorBadProtocol,
                        ErrorKind::BadHeader => ParseResult::ErrorBadHeader,
                        ErrorKind::BadHeaderValue => ParseResult::ErrorBadHeaderValue,
                    };
                },
                Advance::Done(q) => {
                    proof {
                        assert(feed_from(before, buffer@, i as int) matches Outcome::Finished {
                            request,
                            consumed,
                        } && request == q@ && consumed == i as int + 1);
                    }
                    return ParseResult::Complete(q, i + 1);
                },
            }
            i = i + 1;
        }
        ParseResult::InProgress
    }
}

} // verus!
