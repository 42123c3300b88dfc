//! An incremental parser for HTTP/1.x request headers.
//!
//! The parser accepts octets in arbitrarily sized chunks, drives a
//! byte-at-a-time state machine over them, and reports either that it needs
//! more input, that a full header section was read (together with the number
//! of bytes consumed), or that the input violates the grammar. The
//! executable parser is proved to follow the mathematical model of the
//! state machine in `machine`, where the streaming laws (split-invariance,
//! determinism, exact consumption) are proved of that model. Around the
//! parser stand a verified UTF-8 validity check in `encoding`, request
//! accessors such as the Content-Length reader in `request`, and response
//! values with an exact octet-level rendering in `response`.

pub mod encoding;
pub mod machine;
pub mod request;
pub mod response;
