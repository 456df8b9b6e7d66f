//! The errors that the parsers report.
use vstd::prelude::*;
use crate::header_name::SipRFCHeader;

verus! {

/// What went wrong in a parse. Each error has a numeric code and a fixed description.
#[derive(Clone, Copy, Debug, PartialEq, Eq, Structural)]
pub enum SipParseError {
    /// the input ended where more octets were required
    UnexpectedEof,
    /// a token was expected and none was found
    InvalidToken,
    /// a required literal octet was absent
    ExpectedLiteral(u8),
    /// a quoted string was opened and never closed
    UnterminatedQuotedString,
    /// `%` not followed by two hex digits where an escape is mandatory
    InvalidEscape,
    /// the URI does not follow its grammar
    InvalidUri,
    /// the value does not follow the grammar of its header
    HeaderFormat(SipRFCHeader),
    /// the message is not framed as a SIP message
    InvalidMessage,
    /// the octets are not UTF-8
    InvalidUtf8,
}

impl SipParseError {
    /// The numeric code of each kind of error.
    pub open spec fn spec_code(self) -> u32 {
        match self {
            SipParseError::UnexpectedEof => 1,
            SipParseError::InvalidToken => 2,
            SipParseError::ExpectedLiteral(_) => 3,
            SipParseError::UnterminatedQuotedString => 4,
            SipParseError::InvalidEscape => 5,
            SipParseError::InvalidUri => 6,
            SipParseError::HeaderFormat(_) => 7,
            SipParseError::InvalidMessage => 8,
            SipParseError::InvalidUtf8 => 9,
        }
    }

    pub fn code(&self) -> (r: u32)
        ensures
            r == self.spec_code(),
    {
        match self {
            SipParseError::UnexpectedEof => 1,
            SipParseError::InvalidToken => 2,
            SipParseError::ExpectedLiteral(_) => 3,
            SipParseError::UnterminatedQuotedString => 4,
            SipParseError::InvalidEscape => 5,
            SipParseError::InvalidUri => 6,
            SipParseError::HeaderFormat(_) => 7,
            SipParseError::InvalidMessage => 8,
            SipParseError::InvalidUtf8 => 9,
        }
    }

    pub fn description(&self) -> &'static str {
        match self {
            SipParseError::UnexpectedEof => "unexpected end of input",
            SipParseError::InvalidToken => "expected a token",
            SipParseError::ExpectedLiteral(_) => "expected literal is absent",
            SipParseError::UnterminatedQuotedString => "quoted string is not terminated",
            SipParseError::InvalidEscape => "invalid escape sequence",
            SipParseError::InvalidUri => "invalid URI",
            SipParseError::HeaderFormat(_) => "header value does not match its grammar",
            SipParseError::InvalidMessage => "invalid message",
            SipParseError::InvalidUtf8 => "octets are not UTF-8",
        }
    }
}

} // verus!
