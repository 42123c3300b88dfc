//! HTTP response values and their rendering to octets.
//!
//! A response holds a status, a protocol token, headers and a body, and
//! `render` lays them out on the wire: the status line, one line per
//! header, a blank line, then the body. The octets produced are pinned down
//! exactly by `spec_render`. Sending the octets anywhere is the caller's
//! business; nothing here does I/O.

use crate::request::bytes_equal;
use crate::request::headers_view;
use crate::request::lookup_header;
use vstd::pervasive::VecAdditionalExecFns;
use vstd::prelude::*;
use vstd::utf8::encode_utf8;

verus! {

/// The status of an HTTP response, named by its reason phrase.
#[derive(Debug, Clone, Copy, PartialEq, Eq, Structural)]
pub enum HttpResponseStatus {
    Continue,
    SwitchingProtocols,
    Processing,
    OK,
    Created,
    Accepted,
    NonAuthoritativeInformation,
    NoContent,
    ResetContent,
    PartialContent,
    MultiStatus,
    AlreadyReported,
    ImUsed,
    MultipleChoices,
    MovedPermanently,
    Found,
    SeeOther,
    NotModified,
    UseProxy,
    SwitchProxy,
    TemporaryRedirect,
    PermanentRedirect,
    BadRequest,
    Unauthorized,
    PaymentRequired,
    Forbidden,
    NotFound,
    MethodNotAllowed,
    NotAcceptable,
    ProxyAuthenticationRequired,
    RequestTimeout,
    Conflict,
    Gone,
    LengthRequired,
    PreconditionFailed,
    PayloadTooLarge,
    URITooLong,
    UnsupportedMediaType,
    RangeNotSatisfiable,
    ExpectationFailed,
    IAmATeapot,
    MisdirectedRequest,
    UnprocessableEntity,
    Locked,
    FailedDependency,
    UpgradeRequired,
    PreconditionRequired,
    TooManyRequests,
    RequestHeaderFieldsTooLarge,
    UnavailableForLegalReasons,
    InternalServerError,
    NotImplemented,
    BadGateway,
    ServiceUnavailable,
    GatewayTimeout,
    HTTPVersionNotSupported,
    VariantAlsoNegotiates,
    InsufficientStorage,
    LoopDetected,
    NotExtended,
    NetworkAuthenticationRequired,
}

/// The numeric code of a status.
pub open spec fn status_code(s: HttpResponseStatus) -> u16 {
    match s {
        HttpResponseStatus::Continue => 100,
        HttpResponseStatus::SwitchingProtocols => 101,
        HttpResponseStatus::Processing => 102,
        HttpResponseStatus::OK => 200,
        HttpResponseStatus::Created => 201,
        HttpResponseStatus::Accepted => 202,
        HttpResponseStatus::NonAuthoritativeInformation => 203,
        HttpResponseStatus::NoContent => 204,
        HttpResponseStatus::ResetContent => 205,
        HttpResponseStatus::PartialContent => 206,
        HttpResponseStatus::MultiStatus => 207,
        HttpResponseStatus::AlreadyReported => 208,
        HttpResponseStatus::ImUsed => 226,
        HttpResponseStatus::MultipleChoices => 300,
        HttpResponseStatus::MovedPermanently => 301,
        HttpResponseStatus::Found => 302,
        HttpResponseStatus::SeeOther => 303,
        HttpResponseStatus::NotModified => 304,
        HttpResponseStatus::UseProxy => 305,
        HttpResponseStatus::SwitchProxy => 306,
        HttpResponseStatus::TemporaryRedirect => 307,
        HttpResponseStatus::PermanentRedirect => 308,
        HttpResponseStatus::BadRequest => 400,
        HttpResponseStatus::Unauthorized => 401,
        HttpResponseStatus::PaymentRequired => 402,
        HttpResponseStatus::Forbidden => 403,
        HttpResponseStatus::NotFound => 404,
        HttpResponseStatus::MethodNotAllowed => 405,
        HttpResponseStatus::NotAcceptable => 406,
        HttpResponseStatus::ProxyAuthenticationRequired => 407,
        HttpResponseStatus::RequestTimeout => 408,
        HttpResponseStatus::Conflict => 409,
        HttpResponseStatus::Gone => 410,
        HttpResponseStatus::LengthRequired => 411,
        HttpResponseStatus::PreconditionFailed => 412,
        HttpResponseStatus::PayloadTooLarge => 413,
        HttpResponseStatus::URITooLong => 414,
        HttpResponseStatus::UnsupportedMediaType => 415,
        HttpResponseStatus::RangeNotSatisfiable => 416,
        HttpResponseStatus::ExpectationFailed => 417,
        HttpResponseStatus::IAmATeapot => 418,
        HttpResponseStatus::MisdirectedRequest => 421,
        HttpResponseStatus::UnprocessableEntity => 422,
        HttpResponseStatus::Locked => 423,
        HttpResponseStatus::FailedDependency => 424,
        HttpResponseStatus::UpgradeRequired => 426,
        HttpResponseStatus::PreconditionRequired => 428,
        HttpResponseStatus::TooManyRequests => 429,
        HttpResponseStatus::RequestHeaderFieldsTooLarge => 431,
        HttpResponseStatus::UnavailableForLegalReasons => 451,
        HttpResponseStatus::InternalServerError => 500,
        HttpResponseStatus::NotImplemented => 501,
        HttpResponseStatus::BadGateway => 502,
        HttpResponseStatus::ServiceUnavailable => 503,
        HttpResponseStatus::GatewayTimeout => 504,
        HttpResponseStatus::HTTPVersionNotSupported => 505,
        HttpResponseStatus::VariantAlsoNegotiates => 506,
        HttpResponseStatus::InsufficientStorage => 507,
        HttpResponseStatus::LoopDetected => 508,
        HttpResponseStatus::NotExtended => 510,
        HttpResponseStatus::NetworkAuthenticationRequired => 511,
    }
}

/// The reason phrase of a status.
pub open spec fn status_text(s: HttpResponseStatus) -> Seq<char> {
    match s {
        HttpResponseStatus::Continue => "Continue"@,
        HttpResponseStatus::SwitchingProtocols => "Switching Protocols"@,
        HttpResponseStatus::Processing => "Processing"@,
        HttpResponseStatus::OK => "OK"@,
        HttpResponseStatus::Created => "Created"@,
        HttpResponseStatus::Accepted => "Accepted"@,
        HttpResponseStatus::NonAuthoritativeInformation => "Non-Authoritative Information"@,
        HttpResponseStatus::NoContent => "No Content"@,
        HttpResponseStatus::ResetContent => "Reset Content"@,
        HttpResponseStatus::PartialContent => "Partial Content"@,
        HttpResponseStatus::MultiStatus => "Multi Status"@,
        HttpResponseStatus::AlreadyReported => "Already Reported"@,
        HttpResponseStatus::ImUsed => "IM Used"@,
        HttpResponseStatus::MultipleChoices => "Multiple Choices"@,
        HttpResponseStatus::MovedPermanently => "Moved Permanently"@,
        HttpResponseStatus::Found => "Found"@,
        HttpResponseStatus::SeeOther => "See Other"@,
        HttpResponseStatus::NotModified => "Not Modified"@,
        HttpResponseStatus::UseProxy => "Use Proxy"@,
        HttpResponseStatus::SwitchProxy => "Switch Proxy"@,
        HttpResponseStatus::TemporaryRedirect => "Temporary Redirect"@,
        HttpResponseStatus::PermanentRedirect => "Permanent Redirect"@,
        HttpResponseStatus::BadRequest => "Bad Request"@,
        HttpResponseStatus::Unauthorized => "Unauthorized"@,
        HttpResponseStatus::PaymentRequired => "Payment Required"@,
        HttpResponseStatus::Forbidden => "Forbidden"@,
        HttpResponseStatus::NotFound => "Not Found"@,
        HttpResponseStatus::MethodNotAllowed => "Method Not Allowed"@,
        HttpResponseStatus::NotAcceptable => "Not Acceptable"@,
        HttpResponseStatus::ProxyAuthenticationRequired => "Proxy Authentication Required"@,
        HttpResponseStatus::RequestTimeout => "Request Timeout"@,
        HttpResponseStatus::Conflict => "Conflict"@,
        HttpResponseStatus::Gone => "Gone"@,
        HttpResponseStatus::LengthRequired => "Length Required"@,
        HttpResponseStatus::PreconditionFailed => "Precondition Failed"@,
        HttpResponseStatus::PayloadTooLarge => "Payload Too Large"@,
        HttpResponseStatus::URITooLong => "URI Too Long"@,
        HttpResponseStatus::UnsupportedMediaType => "Unsupported Media Type"@,
        HttpResponseStatus::RangeNotSatisfiable => "Range Not Satisfiable"@,
        HttpResponseStatus::ExpectationFailed => "Expectation Failed"@,
        HttpResponseStatus::IAmATeapot => "I'm A Teapot"@,
        HttpResponseStatus::MisdirectedRequest => "Misdirected Request"@,
        HttpResponseStatus::UnprocessableEntity => "Unprocessable Entity"@,
        HttpResponseStatus::Locked => "Locked"@,
        HttpResponseStatus::FailedDependency => "Failed Dependency"@,
        HttpResponseStatus::UpgradeRequired => "Upgrade Required"@,
        HttpResponseStatus::PreconditionRequired => "Precondition Required"@,
        HttpResponseStatus::TooManyRequests => "Too Many Requests"@,
        HttpResponseStatus::RequestHeaderFieldsTooLarge => "Request Header Fields Too Large"@,
        HttpResponseStatus::UnavailableForLegalReasons => "Unavailable For Legal Reasons"@,
        HttpResponseStatus::InternalServerError => "Internal Server Error"@,
        HttpResponseStatus::NotImplemented => "Not Implemented"@,
        HttpResponseStatus::BadGateway => "Bad Gateway"@,
        HttpResponseStatus::ServiceUnavailable => "Service Unavailable"@,
        HttpResponseStatus::GatewayTimeout => "Gateway Timeout"@,
        HttpResponseStatus::HTTPVersionNotSupported => "HTTP Version Not Supported"@,
        HttpResponseStatus::VariantAlsoNegotiates => "Variant Also Negotiates"@,
        HttpResponseStatus::InsufficientStorage => "Insufficient Storage"@,
        HttpResponseStatus::LoopDetected => "Loop Detected"@,
        HttpResponseStatus::NotExtended => "Not Extended"@,
        HttpResponseStatus::NetworkAuthenticationRequired => "Network Authentication Required"@,
    }
}

impl HttpResponseStatus {
    /// The numeric code of this status.
    pub fn code(&self) -> (r: u16)
        ensures
            r == status_code(*self),
    {
        match *self {
            HttpResponseStatus::Continue => 100,
            HttpResponseStatus::SwitchingProtocols => 101,
            HttpResponseStatus::Processing => 102,
            HttpResponseStatus::OK => 200,
            HttpResponseStatus::Created => 201,
            HttpResponseStatus::Accepted => 202,
            HttpResponseStatus::NonAuthoritativeInformation => 203,
            HttpResponseStatus::NoContent => 204,
            HttpResponseStatus::ResetContent => 205,
            HttpResponseStatus::PartialContent => 206,
            HttpResponseStatus::MultiStatus => 207,
            HttpResponseStatus::AlreadyReported => 208,
            HttpResponseStatus::ImUsed => 226,
            HttpResponseStatus::MultipleChoices => 300,
            HttpResponseStatus::MovedPermanently => 301,
            HttpResponseStatus::Found => 302,
            HttpResponseStatus::SeeOther => 303,
            HttpResponseStatus::NotModified => 304,
            HttpResponseStatus::UseProxy => 305,
            HttpResponseStatus::SwitchProxy => 306,
            HttpResponseStatus::TemporaryRedirect => 307,
            HttpResponseStatus::PermanentRedirect => 308,
            HttpResponseStatus::BadRequest => 400,
            HttpResponseStatus::Unauthorized => 401,
            HttpResponseStatus::PaymentRequired => 402,
            HttpResponseStatus::Forbidden => 403,
            HttpResponseStatus::NotFound => 404,
            HttpResponseStatus::MethodNotAllowed => 405,
            HttpResponseStatus::NotAcceptable => 406,
            HttpResponseStatus::ProxyAuthenticationRequired => 407,
            HttpResponseStatus::RequestTimeout => 408,
            HttpResponseStatus::Conflict => 409,
            HttpResponseStatus::Gone => 410,
            HttpResponseStatus::LengthRequired => 411,
            HttpResponseStatus::PreconditionFailed => 412,
            HttpResponseStatus::PayloadTooLarge => 413,
            HttpResponseStatus::URITooLong => 414,
            HttpResponseStatus::UnsupportedMediaType => 415,
            HttpResponseStatus::RangeNotSatisfiable => 416,
            HttpResponseStatus::ExpectationFailed => 417,
            HttpResponseStatus::IAmATeapot => 418,
            HttpResponseStatus::MisdirectedRequest => 421,
            HttpResponseStatus::UnprocessableEntity => 422,
            HttpResponseStatus::Locked => 423,
            HttpResponseStatus::FailedDependency => 424,
            HttpResponseStatus::UpgradeRequired => 426,
            HttpResponseStatus::PreconditionRequired => 428,
            HttpResponseStatus::TooManyRequests => 429,
            HttpResponseStatus::RequestHeaderFieldsTooLarge => 431,
            HttpResponseStatus::UnavailableForLegalReasons => 451,
            HttpResponseStatus::InternalServerError => 500,
            HttpResponseStatus::NotImplemented => 501,
            HttpResponseStatus::BadGateway => 502,
            HttpResponseStatus::ServiceUnavailable => 503,
            HttpResponseStatus::GatewayTimeout => 504,
            HttpResponseStatus::HTTPVersionNotSupported => 505,
            HttpResponseStatus::VariantAlsoNegotiates => 506,
            HttpResponseStatus::InsufficientStorage => 507,
            HttpResponseStatus::LoopDetected => 508,
            HttpResponseStatus::NotExtended => 510,
            HttpResponseStatus::NetworkAuthenticationRequired => 511,
        }
    }

    /// The reason phrase of this status.
    pub fn as_string(&self) -> (r: &'static str)
        ensures
            r@ == status_text(*self),
    {
        match *self {
            HttpResponseStatus::Continue => "Continue",
            HttpResponseStatus::SwitchingProtocols => "Switching Protocols",
            HttpResponseStatus::Processing => "Processing",
            HttpResponseStatus::OK => "OK",
            HttpResponseStatus::Created => "Created",
            HttpResponseStatus::Accepted => "Accepted",
            HttpResponseStatus::NonAuthoritativeInformation => "Non-Authoritative Information",
            HttpResponseStatus::NoContent => "No Content",
            HttpResponseStatus::ResetContent => "Reset Content",
            HttpResponseStatus::PartialContent => "Partial Content",
            HttpResponseStatus::MultiStatus => "Multi Status",
            HttpResponseStatus::AlreadyReported => "Already Reported",
            HttpResponseStatus::ImUsed => "IM Used",
            HttpResponseStatus::MultipleChoices => "Multiple Choices",
            HttpResponseStatus::MovedPermanently => "Moved Permanently",
            HttpResponseStatus::Found => "Found",
            HttpResponseStatus::SeeOther => "See Other",
            HttpResponseStatus::NotModified => "Not Modified",
            HttpResponseStatus::UseProxy => "Use Proxy",
            HttpResponseStatus::SwitchProxy => "Switch Proxy",
            HttpResponseStatus::TemporaryRedirect => "Temporary Redirect",
            HttpResponseStatus::PermanentRedirect => "Permanent Redirect",
            HttpResponseStatus::BadRequest => "Bad Request",
            HttpResponseStatus::Unauthorized => "Unauthorized",
            HttpResponseStatus::PaymentRequired => "Payment Required",
            HttpResponseStatus::Forbidden => "Forbidden",
            HttpResponseStatus::NotFound => "Not Found",
            HttpResponseStatus::MethodNotAllowed => "Method Not Allowed",
            HttpResponseStatus::NotAcceptable => "Not Acceptable",
            HttpResponseStatus::ProxyAuthenticationRequired => "Proxy Authentication Required",
            HttpResponseStatus::RequestTimeout => "Request Timeout",
            HttpResponseStatus::Conflict => "Conflict",
            HttpResponseStatus::Gone => "Gone",
            HttpResponseStatus::LengthRequired => "Length Required",
            HttpResponseStatus::PreconditionFailed => "Precondition Failed",
            HttpResponseStatus::PayloadTooLarge => "Payload Too Large",
            HttpResponseStatus::URITooLong => "URI Too Long",
            HttpResponseStatus::UnsupportedMediaType => "Unsupported Media Type",
            HttpResponseStatus::RangeNotSatisfiable => "Range Not Satisfiable",
            HttpResponseStatus::ExpectationFailed => "Expectation Failed",
            HttpResponseStatus::IAmATeapot => "I'm A Teapot",
            HttpResponseStatus::MisdirectedRequest => "Misdirected Request",
            HttpResponseStatus::UnprocessableEntity => "Unprocessable Entity",
            HttpResponseStatus::Locked => "Locked",
            HttpResponseStatus::FailedDependency => "Failed Dependency",
            HttpResponseStatus::UpgradeRequired => "Upgrade Required",
            HttpResponseStatus::PreconditionRequired => "Precondition Required",
            HttpResponseStatus::TooManyRequests => "Too Many Requests",
            HttpResponseStatus::RequestHeaderFieldsTooLarge => "Request Header Fields Too Large",
            HttpResponseStatus::UnavailableForLegalReasons => "Unavailable For Legal Reasons",
            HttpResponseStatus::InternalServerError => "Internal Server Error",
            HttpResponseStatus::NotImplemented => "Not Implemented",
            HttpResponseStatus::BadGateway => "Bad Gateway",
            HttpResponseStatus::ServiceUnavailable => "Service Unavailable",
            HttpResponseStatus::GatewayTimeout => "Gateway Timeout",
            HttpResponseStatus::HTTPVersionNotSupported => "HTTP Version Not Supported",
            HttpResponseStatus::VariantAlsoNegotiates => "Variant Also Negotiates",
            HttpResponseStatus::InsufficientStorage => "Insufficient Storage",
            HttpResponseStatus::LoopDetected => "Loop Detected",
            HttpResponseStatus::NotExtended => "Not Extended",
            HttpResponseStatus::NetworkAuthenticationRequired => "Network Authentication Required",
        }
    }
}

/// The model of a response: its status, protocol token, ordered headers and
/// body, all as octets.
#[verifier::ext_equal]
pub struct ResponseModel {
    pub status: HttpResponseStatus,
    pub protocol: Seq<u8>,
    pub headers: Seq<(Seq<u8>, Seq<u8>)>,
    pub body: Seq<u8>,
}

/// The decimal digits of a non-negative number, most significant first.
pub open spec fn dec_digits(n: int) -> Seq<u8>
    recommends
        n >= 0,
    decreases n,
{
    if n < 10 {
        seq![(0x30 + n) as u8]
    } else {
        dec_digits(n / 10).push((0x30 + n % 10) as u8)
    }
}

/// One header on the wire: the name, a colon and a space, the value, CRLF.
pub open spec fn header_line(p: (Seq<u8>, Seq<u8>)) -> Seq<u8> {
    p.0 + seq![0x3au8, 0x20] + p.1 + seq![0x0du8, 0x0a]
}

/// The header section on the wire: one line per pair, in order.
pub open spec fn render_header_lines(h: Seq<(Seq<u8>, Seq<u8>)>) -> Seq<u8>
    decreases h.len(),
{
    if h.len() == 0 {
        Seq::empty()
    } else {
        render_header_lines(h.drop_last()) + header_line(h.last())
    }
}

/// A response on the wire: the status line with the numeric code and the
/// reason phrase, the header lines, a blank line, then the body.
pub open spec fn spec_render(r: ResponseModel) -> Seq<u8> {
    r.protocol + seq![0x20u8] + dec_digits(status_code(r.status) as int) + seq![0x20u8]
        + encode_utf8(status_text(r.status)) + seq![0x0du8, 0x0a] + render_header_lines(r.headers)
        + seq![0x0du8, 0x0a] + r.body
}

/// Replaces the value of the first pair with the given name, or appends a
/// new pair when no pair has it.
pub open spec fn upsert(h: Seq<(Seq<u8>, Seq<u8>)>, name: Seq<u8>, value: Seq<u8>) -> Seq<
    (Seq<u8>, Seq<u8>),
>
    decreases h.len(),
{
    if h.len() == 0 {
        seq![(name, value)]
    } else if h[0].0 == name {
        seq![(name, value)] + h.drop_first()
    } else {
        seq![h[0]] + upsert(h.drop_first(), name, value)
    }
}

/// An HTTP response: the status, the protocol token of the status line, the
/// headers, and the body, all held as octets.
#[derive(Debug)]
pub struct HttpResponse {
    /// The status reported on the status line.
    pub status: HttpResponseStatus,
    /// The protocol token of the status line, such as the octets of
    /// "HTTP/1.1".
    pub protocol: Vec<u8>,
    /// The headers, in the order they will be rendered.
    pub headers: Vec<(Vec<u8>, Vec<u8>)>,
    /// The body, sent verbatim after the blank line.
    pub body: Vec<u8>,
}

impl View for HttpResponse {
    type V = ResponseModel;

    open spec fn view(&self) -> ResponseModel {
        ResponseModel {
            status: self.status,
            protocol: self.protocol@,
            headers: headers_view(self.headers@),
            body: self.body@,
        }
    }
}

/// Appends all octets of a slice to a vector.
fn push_bytes(out: &mut Vec<u8>, src: &[u8])
    ensures
        final(out)@ == old(out)@ + src@,
{
    let n: usize = src.len();
    let mut i: usize = 0;
    #[verifier::loop_isolation(false)]
    while i < n
        invariant
            0 <= i <= n,
            out@ == old(out)@ + src@.take(i as int),
        decreases n - i,
    {
        out.push(src[i]);
        proof {
            assert(old(out)@ + src@.take(i as int + 1) =~= (old(out)@ + src@.take(i as int)).push(
                src@[i as int],
            ));
        }
        i = i + 1;
    }
    proof {
        assert(src@.take(n as int) =~= src@);
        assert(out@ =~= old(out)@ + src@);
    }
}

/// Appends the decimal digits of `x` to a vector, most significant first.
fn push_decimal(out: &mut Vec<u8>, x: u16)
    ensures
        final(out)@ == old(out)@ + dec_digits(x as int),
    decreases x,
{
    if x < 10 {
        out.push(0x30 + x as u8);
        proof {
            assert(out@ =~= old(out)@ + dec_digits(x as int));
        }
    } else {
        push_decimal(out, x / 10);
        out.push(0x30 + (x % 10) as u8);
        proof {
            assert(out@ =~= old(out)@ + dec_digits(x as int));
        }
    }
}

impl HttpResponse {
    /// A response with the given status and protocol token and an empty
    /// body.
    pub fn new(status: HttpResponseStatus, protocol: Vec<u8>) -> (r: HttpResponse)
        ensures
            r@ == (ResponseModel {
                status,
                protocol: protocol@,
                headers: Seq::empty(),
                body: Seq::empty(),
            }),
    {
        HttpResponse::new_with_body(status, protocol, Vec::new())
    }

    /// A response with the given status, protocol token and body.
    pub fn new_with_body(status: HttpResponseStatus, protocol: Vec<u8>, body: Vec<u8>) -> (r:
        HttpResponse)
        ensures
            r@ == (ResponseModel {
                status,
                protocol: protocol@,
                headers: Seq::empty(),
                body: body@,
            }),
    {
        let r = HttpResponse { status, protocol, headers: Vec::new(), body };
        proof {
            assert(r@ =~= ResponseModel {
                status,
                protocol: r.protocol@,
                headers: Seq::empty(),
                body: r.body@,
            });
        }
        r
    }

    /// Sets a header: replaces the value of the first header with this
    /// name, or appends the pair when the name is new. Every other pair,
    /// and the order of the pairs, stays as it was.
    pub fn add_header(&mut self, name: Vec<u8>, value: Vec<u8>)
        ensures
            final(self)@ == (ResponseModel {
                headers: upsert(old(self)@.headers, name@, value@),
                ..old(self)@
            }),
    {
        let n: usize = self.headers.len();
        let mut i: usize = 0;
        proof {
            let hv = headers_view(self.headers@);
            assert(hv.skip(0) =~= hv);
            assert(hv.take(0) + upsert(hv, name@, value@) =~= upsert(hv, name@, value@));
        }
        #[verifier::loop_isolation(false)]
        while i < n
            invariant
                0 <= i <= n,
                self == old(self),
                upsert(old(self)@.headers, name@, value@) == headers_view(
                    self.headers@,
                ).take(i as int) + upsert(headers_view(self.headers@).skip(i as int), name@, value@),
            decreases n - i,
        {
            let ghost hv = headers_view(self.headers@);
            proof {
                assert(hv.skip(i as int)[0] == hv[i as int]);
            }
            if bytes_equal(self.headers[i].0.as_slice(), name.as_slice()) {
                let ghost nm = name@;
                let ghost vl = value@;
                self.headers.set(i, (name, value));
                proof {
                    let hv2 = headers_view(self.headers@);
                    assert(upsert(hv.skip(i as int), nm, vl) == seq![(nm, vl)] + hv.skip(
                        i as int,
                    ).drop_first());
                    assert(hv2 =~= hv.take(i as int) + (seq![(nm, vl)] + hv.skip(
                        i as int,
                    ).drop_first()));
                    assert(self@ =~= ResponseModel {
                        headers: upsert(old(self)@.headers, nm, vl),
                        ..old(self)@
                    });
                }
                return ;
            }
            proof {
                assert(hv.take(i as int).push(hv[i as int]) =~= hv.take(i as int + 1));
                assert(hv.skip(i as int).drop_first() =~= hv.skip(i as int + 1));
                assert(hv.take(i as int) + (seq![hv[i as int]] + hv.skip(i as int + 1)) =~= hv.take(
                    i as int + 1,
                ) + hv.skip(i as int + 1));
            }
            i = i + 1;
        }
        let ghost hv = headers_view(self.headers@);
        let ghost nm = name@;
        let ghost vl = value@;
        self.headers.push((name, value));
        proof {
            assert(hv.skip(n as int) =~= Seq::<(Seq<u8>, Seq<u8>)>::empty());
            assert(hv.take(n as int) =~= hv);
            assert(headers_view(self.headers@) =~= hv + seq![(nm, vl)]);
            assert(self@ =~= ResponseModel {
                headers: upsert(old(self)@.headers, nm, vl),
                ..old(self)@
            });
        }
    }

    /// Renders the response to its exact octets on the wire: the status
    /// line, the header lines in order, a blank line, then the body.
    pub fn render(&self) -> (r: Vec<u8>)
        ensures
            r@ == spec_render(self@),
    {
        let mut out: Vec<u8> = Vec::new();
        push_bytes(&mut out, self.protocol.as_slice());
        out.push(0x20);
        push_decimal(&mut out, self.status.code());
        out.push(0x20);
        push_bytes(&mut out, self.status.as_string().as_bytes());
        out.push(0x0d);
        out.push(0x0a);
        let ghost status_line = self@.protocol + seq![0x20u8] + dec_digits(
            status_code(self@.status) as int,
        ) + seq![0x20u8] + encode_utf8(status_text(self@.status)) + seq![0x0du8, 0x0a];
        proof {
            assert(out@ =~= status_line);
        }
        let n: usize = self.headers.len();
        let mut i: usize = 0;
        #[verifier::loop_isolation(false)]
        while i < n
            invariant
                0 <= i <= n,
                out@ == status_line + render_header_lines(headers_view(self.headers@).take(i as int)),
            decreases n - i,
        {
            let ghost before = out@;
            push_bytes(&mut out, self.headers[i].0.as_slice());
            out.push(0x3a);
            out.push(0x20);
            push_bytes(&mut out, self.headers[i].1.as_slice());
            out.push(0x0d);
            out.push(0x0a);
            proof {
                let hv = headers_view(self.headers@);
                assert(hv.take(i as int + 1).drop_last() =~= hv.take(i as int));
                assert(hv.take(i as int + 1).last() == hv[i as int]);
                assert(out@ =~= before + header_line(hv[i as int]));
                assert(out@ =~= status_line + render_header_lines(hv.take(i as int + 1)));
            }
            i = i + 1;
        }
        proof {
            assert(headers_view(self.headers@).take(n as int) =~= headers_view(self.headers@));
        }
        out.push(0x0d);
        out.push(0x0a);
        push_bytes(&mut out, self.body.as_slice());
        proof {
            assert(out@ =~= spec_render(self@));
        }
        out
    }

    /// The value of the named header, or `None` when the response has no
    /// header of that name; the name is matched octet for octet. Of several
    /// pairs with the name, the last wins, though `add_header` never leaves
    /// two pairs with one name.
    pub fn get_header(&self, name: &[u8]) -> (r: Option<&Vec<u8>>)
        ensures
            match lookup_header(self@.headers, name@) {
                Some(v) => r matches Some(rv) && rv@ == v,
                None => r is None,
            },
    {
        let n: usize = self.headers.len();
        let mut j: usize = n;
        proof {
            assert(headers_view(self.headers@).take(n as int) =~= headers_view(self.headers@));
        }
        #[verifier::loop_isolation(false)]
        while j > 0
            invariant
                0 <= j <= n,
                lookup_header(headers_view(self.headers@).take(j as int), name@) == lookup_header(
                    self@.headers,
                    name@,
                ),
            decreases j,
        {
            j = j - 1;
            let ghost hv = headers_view(self.headers@);
            proof {
                assert(hv.take(j as int + 1).last() == hv[j as int]);
                assert(hv.take(j as int + 1).drop_last() =~= hv.take(j as int));
            }
            if bytes_equal(self.headers[j].0.as_slice(), name) {
                return Some(&self.headers[j].1);
            }
        }
        proof {
            assert(headers_view(self.headers@).take(0) =~= Seq::<(Seq<u8>, Seq<u8>)>::empty());
        }
        None
    }
}

/// The error `write` reports when the sink refuses the octets.
#[derive(Debug, Clone, Copy, PartialEq, Eq, Structural)]
pub struct WriteError;

/// Relies on std::io::Write::write_all: it writes the whole buffer to the
/// sink, or fails with an error. Nothing is promised of the sink either
/// way.
#[verifier::external_body]
fn write_all_to<T: std::io::Write>(sink: &mut T, buf: &[u8]) -> Result<(), WriteError> {
    match sink.write_all(buf) {
        Ok(()) => Ok(()),
        Err(_) => Err(WriteError),
    }
}

impl HttpResponse {
    /// Renders the response and writes the octets to the sink. On success
    /// the reported count is the full length of the rendered response; on
    /// failure the sink may have taken any prefix of it.
    pub fn write<T: std::io::Write>(&self, sink: &mut T) -> (r: Result<usize, WriteError>)
        ensures
            r matches Ok(n) ==> n == spec_render(self@).len(),
    {
        let buf = self.render();
        match write_all_to(sink, buf.as_slice()) {
            Ok(()) => Ok(buf.len()),
            Err(e) => Err(e),
        }
    }
}

} // verus!
