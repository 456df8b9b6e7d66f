//! A zero-copy parser for the header section of SIP messages (RFC 3261): header lines are
//! split, names resolved (compact aliases and case included), and each value decomposed by the
//! grammar of its header into borrowed slices of the input, with exact contracts proved by Verus.
pub mod bnfcore;
pub mod bytes;
pub mod errorparse;
pub mod grammar;
pub mod header;
pub mod header_name;
pub mod headers;
pub mod lexer;
pub mod message;
mod nom_calls;
pub mod nom_wrappers;
pub mod sipuri;
pub mod token_header;

pub use errorparse::SipParseError;
pub use header::{
    Header, HeaderName, HeaderValue, HostPort, RequestUriScheme, SipHeaderTagType,
    SipHeaderValueType, SipUri, UserInfo,
};
pub use header_name::SipRFCHeader;
pub use headers::SipHeaders;
pub use message::{get_message_type, MessageType, SipMessage, SipRequest, SipResponse, SipVersion};
