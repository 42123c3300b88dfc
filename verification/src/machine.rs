//! The mathematical model of the header state machine.
//!
//! Everything in this module is ghost: a model of the parser's state, a
//! one-octet transition function `step`, and a run function `feed` that folds
//! `step` over a byte sequence. The executable parser in `request` is proved
//! to agree with `feed` exactly, and the streaming laws (split-invariance,
//! determinism, exact consumption) are proved of `feed` here.

use crate::request::HttpMethod;
use crate::request::HttpVersion;
use vstd::prelude::*;
use vstd::utf8::valid_utf8;

verus! {

/// The classes an octet is sorted into before dispatch.
#[derive(Debug, Clone, Copy, PartialEq, Eq, Structural)]
pub enum CharType {
    Other,
    Space,
    Colon,
    CR,
    LF,
}

/// Classifies one octet: SP and HT count as whitespace, and CR, LF and the
/// colon are the only other octets the grammar dispatches on. The classifier
/// is total; bytes outside these classes are `Other`.
pub open spec fn classify(b: u8) -> CharType {
    if b == 0x20 || b == 0x09 {
        CharType::Space
    } else if b == 0x0d {
        CharType::CR
    } else if b == 0x0a {
        CharType::LF
    } else if b == 0x3a {
        CharType::Colon
    } else {
        CharType::Other
    }
}

/// The lexical states of the header parser.
#[derive(Debug, Clone, Copy, PartialEq, Eq, Structural)]
pub enum ParseState {
    Method,
    URL,
    Protocol,
    ProtocolEOL,
    KeyStart,
    Key,
    ValueStart,
    Value,
    ValueEOL,
    WrappedValueStart,
    WrappedValue,
    WrappedValueEOL,
    FinalEOL,
}

/// The kinds of error a parse can end in.
#[derive(Debug, Clone, Copy, PartialEq, Eq, Structural)]
pub enum ErrorKind {
    /// A grammar violation in a structural position: a misplaced separator,
    /// a broken CRLF sequence, an empty field name, or a folded line with no
    /// header before it.
    Syntax,
    /// An unrecognized token in the method position.
    BadMethod,
    /// A request-target that is not valid UTF-8.
    BadUrl,
    /// An unrecognized token in the protocol position.
    BadProtocol,
    /// A field name that is not valid UTF-8.
    BadHeader,
    /// A field value that is not valid UTF-8.
    BadHeaderValue,
}

/// The model of the parser's accumulated state: the current lexical state,
/// the scratch buffer of the current lexeme, the committed request-line
/// slots, the ordered list of committed header pairs, and the field name
/// waiting for its value.
#[verifier::ext_equal]
pub struct ParserModel {
    pub state: ParseState,
    pub temp: Seq<u8>,
    pub method: HttpMethod,
    pub url: Seq<u8>,
    pub version: HttpVersion,
    pub headers: Seq<(Seq<u8>, Seq<u8>)>,
    pub key: Seq<u8>,
}

/// The model of a completed request: the committed request-line slots and
/// the ordered header list.
#[verifier::ext_equal]
pub struct RequestModel {
    pub method: HttpMethod,
    pub url: Seq<u8>,
    pub protocol: HttpVersion,
    pub headers: Seq<(Seq<u8>, Seq<u8>)>,
}

/// The state a fresh parser starts in: state `Method`, everything empty.
/// The method and version slots hold placeholders; both are overwritten
/// before any request can be completed.
pub open spec fn init_model() -> ParserModel {
    ParserModel {
        state: ParseState::Method,
        temp: Seq::empty(),
        method: HttpMethod::GET,
        url: Seq::empty(),
        version: HttpVersion::Http11,
        headers: Seq::empty(),
        key: Seq::empty(),
    }
}

/// The octets of the token that names a method, in US-ASCII.
pub open spec fn method_token(m: HttpMethod) -> Seq<u8> {
    match m {
        HttpMethod::OPTIONS => seq![0x4fu8, 0x50, 0x54, 0x49, 0x4f, 0x4e, 0x53],
        HttpMethod::GET => seq![0x47u8, 0x45, 0x54],
        HttpMethod::POST => seq![0x50u8, 0x4f, 0x53, 0x54],
        HttpMethod::PUT => seq![0x50u8, 0x55, 0x54],
        HttpMethod::DELETE => seq![0x44u8, 0x45, 0x4c, 0x45, 0x54, 0x45],
        HttpMethod::HEAD => seq![0x48u8, 0x45, 0x41, 0x44],
        HttpMethod::TRACE => seq![0x54u8, 0x52, 0x41, 0x43, 0x45],
        HttpMethod::CONNECT => seq![0x43u8, 0x4f, 0x4e, 0x4e, 0x45, 0x43, 0x54],
        HttpMethod::PATCH => seq![0x50u8, 0x41, 0x54, 0x43, 0x48],
    }
}

/// The method named by a token, or `None` for an unrecognized token.
pub open spec fn method_of(s: Seq<u8>) -> Option<HttpMethod> {
    if s == method_token(HttpMethod::OPTIONS) {
        Some(HttpMethod::OPTIONS)
    } else if s == method_token(HttpMethod::GET) {
        Some(HttpMethod::GET)
    } else if s == method_token(HttpMethod::POST) {
        Some(HttpMethod::POST)
    } else if s == method_token(HttpMethod::PUT) {
        Some(HttpMethod::PUT)
    } else if s == method_token(HttpMethod::DELETE) {
        Some(HttpMethod::DELETE)
    } else if s == method_token(HttpMethod::HEAD) {
        Some(HttpMethod::HEAD)
    } else if s == method_token(HttpMethod::TRACE) {
        Some(HttpMethod::TRACE)
    } else if s == method_token(HttpMethod::CONNECT) {
        Some(HttpMethod::CONNECT)
    } else if s == method_token(HttpMethod::PATCH) {
        Some(HttpMethod::PATCH)
    } else {
        None
    }
}

/// The octets of the token that names a protocol version, in US-ASCII.
pub open spec fn version_token(v: HttpVersion) -> Seq<u8> {
    match v {
        HttpVersion::Http10 => seq![0x48u8, 0x54, 0x54, 0x50, 0x2f, 0x31, 0x2e, 0x30],
        HttpVersion::Http11 => seq![0x48u8, 0x54, 0x54, 0x50, 0x2f, 0x31, 0x2e, 0x31],
    }
}

/// The protocol version named by a token, or `None` for an unrecognized
/// token.
pub open spec fn version_of(s: Seq<u8>) -> Option<HttpVersion> {
    if s == version_token(HttpVersion::Http10) {
        Some(HttpVersion::Http10)
    } else if s == version_token(HttpVersion::Http11) {
        Some(HttpVersion::Http11)
    } else {
        None
    }
}

/// What one octet does to the parser: carry on in a new state, fail with an
/// error kind, or complete a request.
#[verifier::ext_equal]
pub enum Step {
    Next { next: ParserModel },
    Fail { kind: ErrorKind },
    Done { request: RequestModel },
}

/// What a whole buffer does to the parser: leave it waiting for more input
/// in a new state, fail with an error kind, or complete a request after
/// consuming `consumed` octets of the buffer.
#[verifier::ext_equal]
pub enum Outcome {
    InProgress { next: ParserModel },
    Failed { kind: ErrorKind },
    Finished { request: RequestModel, consumed: int },
}

/// The request completed from the parser's accumulated state.
pub open spec fn request_of(p: ParserModel) -> RequestModel {
    RequestModel { method: p.method, url: p.url, protocol: p.version, headers: p.headers }
}

/// Appends the scratch buffer to the value of the last committed header,
/// for a folded continuation line.
pub open spec fn append_to_last(p: ParserModel) -> Seq<(Seq<u8>, Seq<u8>)>
    recommends
        p.headers.len() > 0,
{
    let last = p.headers.len() - 1;
    p.headers.update(last, (p.headers[last].0, p.headers[last].1 + p.temp))
}

/// The transition relation of the parser, one octet at a time. This is the
/// grammar: each state lists what it does with each octet class, every
/// unlisted pair is an error.
pub open spec fn step(p: ParserModel, c: u8) -> Step {
    match p.state {
        // The method token: committed on the space before the
        // request-target. An unknown or ill-formed token is rejected.
        ParseState::Method => match classify(c) {
            CharType::Other => Step::Next { next: ParserModel { temp: p.temp.push(c), ..p } },
            CharType::Space => match method_of(p.temp) {
                Some(m) => Step::Next {
                    next: ParserModel {
                        state: ParseState::URL,
                        temp: Seq::empty(),
                        method: m,
                        ..p
                    },
                },
                None => Step::Fail { kind: ErrorKind::BadMethod },
            },
            _ => Step::Fail { kind: ErrorKind::Syntax },
        },
        // The request-target: colons are legal inside it, and it is kept as
        // opaque octets, checked only for UTF-8 well-formedness.
        ParseState::URL => match classify(c) {
            CharType::Other | CharType::Colon => Step::Next {
                next: ParserModel { temp: p.temp.push(c), ..p },
            },
            CharType::Space => if valid_utf8(p.temp) {
                Step::Next {
                    next: ParserModel {
                        state: ParseState::Protocol,
                        temp: Seq::empty(),
                        url: p.temp,
                        ..p
                    },
                }
            } else {
                Step::Fail { kind: ErrorKind::BadUrl }
            },
            _ => Step::Fail { kind: ErrorKind::Syntax },
        },
        // The protocol token: committed on CR, or on a bare LF, which also
        // skips the EOL state.
        ParseState::Protocol => match classify(c) {
            CharType::Other => Step::Next { next: ParserModel { temp: p.temp.push(c), ..p } },
            CharType::CR => match version_of(p.temp) {
                Some(v) => Step::Next {
                    next: ParserModel {
                        state: ParseState::ProtocolEOL,
                        temp: Seq::empty(),
                        version: v,
                        ..p
                    },
                },
                None => Step::Fail { kind: ErrorKind::BadProtocol },
            },
            CharType::LF => match version_of(p.temp) {
                Some(v) => Step::Next {
                    next: ParserModel {
                        state: ParseState::KeyStart,
                        temp: Seq::empty(),
                        version: v,
                        ..p
                    },
                },
                None => Step::Fail { kind: ErrorKind::BadProtocol },
            },
            CharType::Space | CharType::Colon => Step::Fail { kind: ErrorKind::BadProtocol },
        },
        ParseState::ProtocolEOL => match classify(c) {
            CharType::LF => Step::Next {
                next: ParserModel { state: ParseState::KeyStart, ..p },
            },
            _ => Step::Fail { kind: ErrorKind::Syntax },
        },
        // The per-line dispatch state: whitespace starts a folded
        // continuation, CR or a bare LF ends the header section, anything
        // else starts a field name.
        ParseState::KeyStart => match classify(c) {
            CharType::Space => Step::Next {
                next: ParserModel { state: ParseState::WrappedValueStart, ..p },
            },
            CharType::LF => Step::Done { request: request_of(p) },
            CharType::CR => Step::Next {
                next: ParserModel { state: ParseState::FinalEOL, ..p },
            },
            CharType::Other => Step::Next {
                next: ParserModel { state: ParseState::Key, temp: p.temp.push(c), ..p },
            },
            CharType::Colon => Step::Fail { kind: ErrorKind::Syntax },
        },
        // A field name: committed on the colon.
        ParseState::Key => match classify(c) {
            CharType::Other => Step::Next { next: ParserModel { temp: p.temp.push(c), ..p } },
            CharType::Colon => if valid_utf8(p.temp) {
                Step::Next {
                    next: ParserModel {
                        state: ParseState::ValueStart,
                        temp: Seq::empty(),
                        key: p.temp,
                        ..p
                    },
                }
            } else {
                Step::Fail { kind: ErrorKind::BadHeader }
            },
            _ => Step::Fail { kind: ErrorKind::Syntax },
        },
        // Leading whitespace before a field value is stripped; a value may
        // not be empty.
        ParseState::ValueStart => match classify(c) {
            CharType::Space => Step::Next { next: p },
            CharType::Other => Step::Next {
                next: ParserModel { state: ParseState::Value, temp: p.temp.push(c), ..p },
            },
            _ => Step::Fail { kind: ErrorKind::Syntax },
        },
        // A field value: committed as a `(name, value)` pair on CR, or on a
        // bare LF, which also skips the EOL state.
        ParseState::Value => match classify(c) {
            CharType::Other | CharType::Space | CharType::Colon => Step::Next {
                next: ParserModel { temp: p.temp.push(c), ..p },
            },
            CharType::CR => if valid_utf8(p.temp) {
                Step::Next {
                    next: ParserModel {
                        state: ParseState::ValueEOL,
                        temp: Seq::empty(),
                        headers: p.headers.push((p.key, p.temp)),
                        key: Seq::empty(),
                        ..p
                    },
                }
            } else {
                Step::Fail { kind: ErrorKind::BadHeaderValue }
            },
            CharType::LF => if valid_utf8(p.temp) {
                Step::Next {
                    next: ParserModel {
                        state: ParseState::KeyStart,
                        temp: Seq::empty(),
                        headers: p.headers.push((p.key, p.temp)),
                        key: Seq::empty(),
                        ..p
                    },
                }
            } else {
                Step::Fail { kind: ErrorKind::BadHeaderValue }
            },
        },
        ParseState::ValueEOL => match classify(c) {
            CharType::LF => Step::Next {
                next: ParserModel { state: ParseState::KeyStart, ..p },
            },
            _ => Step::Fail { kind: ErrorKind::Syntax },
        },
        // The start of a folded continuation line: further whitespace is
        // skipped, and the continuation is joined to the previous value by
        // exactly one space. A continuation line of whitespace alone is
        // allowed and appends nothing.
        ParseState::WrappedValueStart => match classify(c) {
            CharType::Space => Step::Next { next: p },
            CharType::Other | CharType::Colon => Step::Next {
                next: ParserModel {
                    state: ParseState::WrappedValue,
                    temp: p.temp.push(0x20).push(c),
                    ..p
                },
            },
            CharType::CR => Step::Next {
                next: ParserModel { state: ParseState::WrappedValueEOL, ..p },
            },
            CharType::LF => Step::Fail { kind: ErrorKind::Syntax },
        },
        // A folded continuation: appended to the last committed header's
        // value on CR. A continuation with no header before it is an error.
        ParseState::WrappedValue => match classify(c) {
            CharType::Other | CharType::Colon | CharType::Space => Step::Next {
                next: ParserModel { temp: p.temp.push(c), ..p },
            },
            CharType::CR => if !valid_utf8(p.temp) {
                Step::Fail { kind: ErrorKind::BadHeaderValue }
            } else if p.headers.len() == 0 {
                Step::Fail { kind: ErrorKind::Syntax }
            } else {
                Step::Next {
                    next: ParserModel {
                        state: ParseState::WrappedValueEOL,
                        temp: Seq::empty(),
                        headers: append_to_last(p),
                        ..p
                    },
                }
            },
            CharType::LF => Step::Fail { kind: ErrorKind::Syntax },
        },
        ParseState::WrappedValueEOL => match classify(c) {
            CharType::LF => Step::Next {
                next: ParserModel { state: ParseState::KeyStart, ..p },
            },
            _ => Step::Fail { kind: ErrorKind::Syntax },
        },
        // After the CR of the blank line: only LF completes the request.
        ParseState::FinalEOL => match classify(c) {
            CharType::LF => Step::Done { request: request_of(p) },
            _ => Step::Fail { kind: ErrorKind::Syntax },
        },
    }
}

/// Runs the parser over `input[i..]`, one octet at a time. On completion the
/// consumed count is the absolute index just past the terminating LF.
pub open spec fn feed_from(p: ParserModel, input: Seq<u8>, i: int) -> Outcome
    recommends
        0 <= i <= input.len(),
    decreases input.len() - i,
{
    if i < 0 || i >= input.len() {
        Outcome::InProgress { next: p }
    } else {
        match step(p, input[i]) {
            Step::Next { next } => feed_from(next, input, i + 1),
            Step::Fail { kind } => Outcome::Failed { kind },
            Step::Done { request } => Outcome::Finished { request, consumed: i + 1 },
        }
    }
}

/// Runs the parser over a whole buffer: the meaning of one `parse` call.
pub open spec fn feed(p: ParserModel, input: Seq<u8>) -> Outcome {
    feed_from(p, input, 0)
}

/// Shifts the consumed count of a completed outcome by `d`; other outcomes
/// are unchanged.
pub open spec fn shift_consumed(o: Outcome, d: int) -> Outcome {
    match o {
        Outcome::Finished { request, consumed } => Outcome::Finished {
            request,
            consumed: consumed + d,
        },
        _ => o,
    }
}

/// The committed header list never shrinks, keeps its order, and never
/// renames a pair: one octet can only append a new pair or extend the value
/// of the last one, so every committed pair survives, its name intact and
/// its value as a prefix of the later value.
pub proof fn lemma_headers_never_shrink(p: ParserModel, c: u8)
    ensures
        step(p, c) matches Step::Next { next } ==> {
            &&& next.headers.len() >= p.headers.len()
            &&& forall|i: int| 0 <= i < p.headers.len() ==> next.headers[i].0 == p.headers[i].0
            &&& forall|i: int|
                0 <= i < p.headers.len() ==> p.headers[i].1.is_prefix_of(next.headers[i].1)
        },
{
    match step(p, c) {
        Step::Next { next } => {
            assert forall|i: int| 0 <= i < p.headers.len() implies p.headers[i].1.is_prefix_of(
                next.headers[i].1,
            ) by {
                assert(next.headers[i].1.subrange(0, p.headers[i].1.len() as int) =~= p.headers[
                    i
                ].1);
            }
        },
        Step::Fail { kind } => {},
        Step::Done { request } => {},
    }
}

/// The states in which the parser stands between lexemes: the per-line
/// dispatch state, the states that skip whitespace before a value, and the
/// states that await the LF of a line ending.
pub open spec fn between_lexemes(s: ParseState) -> bool {
    match s {
        ParseState::ProtocolEOL => true,
        ParseState::KeyStart => true,
        ParseState::ValueStart => true,
        ParseState::ValueEOL => true,
        ParseState::WrappedValueStart => true,
        ParseState::WrappedValueEOL => true,
        ParseState::FinalEOL => true,
        _ => false,
    }
}

/// The scratch buffer holds octets only while a lexeme is being read:
/// between lexemes it is empty.
pub open spec fn scratch_clear(p: ParserModel) -> bool {
    between_lexemes(p.state) ==> p.temp.len() == 0
}

/// A fresh parser starts with an empty scratch buffer, and every commit
/// empties it again: `scratch_clear` holds at the start and is preserved by
/// every octet consumed.
pub proof fn lemma_scratch_clear_preserved(p: ParserModel, c: u8)
    requires
        scratch_clear(p),
    ensures
        scratch_clear(init_model()),
        step(p, c) matches Step::Next { next } ==> scratch_clear(next),
{
}

proof fn lemma_feed_from_concat_right(p: ParserModel, a: Seq<u8>, b: Seq<u8>, j: int)
    requires
        0 <= j <= b.len(),
    ensures
        feed_from(p, a + b, a.len() + j) == shift_consumed(feed_from(p, b, j), a.len() as int),
    decreases b.len() - j,
{
    if j < b.len() {
        assert((a + b)[a.len() + j] == b[j]);
        match step(p, b[j]) {
            Step::Next { next } => {
                lemma_feed_from_concat_right(next, a, b, j + 1);
            },
            Step::Fail { kind } => {},
            Step::Done { request } => {},
        }
    }
}

proof fn lemma_feed_from_concat(p: ParserModel, a: Seq<u8>, b: Seq<u8>, i: int)
    requires
        0 <= i <= a.len(),
    ensures
        match feed_from(p, a, i) {
            Outcome::InProgress { next } => feed_from(p, a + b, i) == shift_consumed(
                feed(next, b),
                a.len() as int,
            ),
            o => feed_from(p, a + b, i) == o,
        },
    decreases a.len() - i,
{
    if i == a.len() {
        lemma_feed_from_concat_right(p, a, b, 0);
    } else {
        assert((a + b)[i] == a[i]);
        match step(p, a[i]) {
            Step::Next { next } => {
                lemma_feed_from_concat(next, a, b, i + 1);
            },
            Step::Fail { kind } => {},
            Step::Done { request } => {},
        }
    }
}

/// Split-invariance: feeding a buffer in two parts reaches the same outcome
/// as feeding it whole. If the first part leaves the parser in progress, the
/// rest of the run continues from that state, and a completion in the second
/// part reports its consumed count relative to the second buffer, so the
/// counts of the two calls sum to the count of the single call. If the first
/// part already fails or completes, the extra input changes nothing. A
/// partition into more than two parts follows by applying this repeatedly.
pub proof fn lemma_split_invariance(p: ParserModel, a: Seq<u8>, b: Seq<u8>)
    ensures
        match feed(p, a) {
            Outcome::InProgress { next } => feed(p, a + b) == shift_consumed(
                feed(next, b),
                a.len() as int,
            ),
            o => feed(p, a + b) == o,
        },
{
    lemma_feed_from_concat(p, a, b, 0);
}

/// Determinism: the outcome of a run is a function of the parser's state and
/// the octets fed, and of nothing else. Two parsers in equal states fed
/// equal byte sequences reach equal outcomes.
pub proof fn lemma_deterministic(p: ParserModel, q: ParserModel, a: Seq<u8>, b: Seq<u8>)
    requires
        p == q,
        a == b,
    ensures
        feed(p, a) == feed(q, b),
{
}

proof fn lemma_feed_from_consumed_range(p: ParserModel, input: Seq<u8>, i: int)
    requires
        0 <= i <= input.len(),
        feed_from(p, input, i) is Finished,
    ensures
        i < feed_from(p, input, i)->consumed <= input.len(),
    decreases input.len() - i,
{
    if i < input.len() {
        match step(p, input[i]) {
            Step::Next { next } => {
                lemma_feed_from_consumed_range(next, input, i + 1);
            },
            Step::Fail { kind } => {},
            Step::Done { request } => {},
        }
    }
}

/// On completion the consumed count `n` lies in `0 < n <= input.len()`.
pub proof fn lemma_consumed_range(p: ParserModel, input: Seq<u8>)
    requires
        feed(p, input) is Finished,
    ensures
        0 < feed(p, input)->consumed <= input.len(),
{
    lemma_feed_from_consumed_range(p, input, 0);
}

/// No over-consumption: a run that completes after `n` octets has read
/// exactly the header section. Replaying just those first `n` octets from
/// the same starting state completes again, with the same request and the
/// same count; the octets past `n` played no part.
pub proof fn lemma_no_overconsumption(p: ParserModel, input: Seq<u8>)
    requires
        feed(p, input) is Finished,
    ensures
        feed(p, input.take(feed(p, input)->consumed)) == feed(p, input),
{
    let n = feed(p, input)->consumed;
    lemma_consumed_range(p, input);
    let a = input.take(n);
    let b = input.skip(n);
    assert(a + b =~= input);
    lemma_split_invariance(p, a, b);
    match feed(p, a) {
        Outcome::InProgress { next } => {
            // A completion strictly inside `b` would report a consumed count
            // past `n`; one at its very start is impossible because every
            // completion consumes at least the terminating LF.
            if feed(next, b) is Finished {
                lemma_consumed_range(next, b);
            }
            assert(false);
        },
        Outcome::Failed { kind } => {
            assert(false);
        },
        Outcome::Finished { request, consumed } => {},
    }
}

/// No under-consumption: a proper prefix of the consumed octets is not
/// enough to complete. Replaying fewer than `n` octets from the same
/// starting state leaves the parser in progress, never complete and never
/// failed.
pub proof fn lemma_no_underconsumption(p: ParserModel, input: Seq<u8>, m: int)
    requires
        feed(p, input) is Finished,
        0 <= m < feed(p, input)->consumed,
    ensures
        feed(p, input.take(m)) is InProgress,
{
    let n = feed(p, input)->consumed;
    lemma_consumed_range(p, input);
    let a = input.take(m);
    let b = input.skip(m);
    assert(a + b =~= input);
    lemma_split_invariance(p, a, b);
    match feed(p, a) {
        Outcome::InProgress { next } => {},
        Outcome::Failed { kind } => {
            assert(false);
        },
        Outcome::Finished { request, consumed } => {
            lemma_feed_from_consumed_range(p, a, 0);
            assert(false);
        },
    }
}

} // verus!
