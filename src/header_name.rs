//! Header names: the RFC set with compact aliases, and extension names.
use vstd::prelude::*;
use crate::bytes::{ascii_lower, bytes_eq, lemma_single, spec_lower};

verus! {

/// A header name of RFC 3261 or of a companion RFC.
#[derive(Clone, Copy, Debug, PartialEq, Eq, Hash, Structural)]
pub enum SipRFCHeader {
    Accept,
    AcceptEncoding,
    AcceptLanguage,
    AlertInfo,
    Allow,
    AllowEvents,
    AuthenticationInfo,
    Authorization,
    CallID,
    CallInfo,
    Contact,
    ContentDisposition,
    ContentEncoding,
    ContentLanguage,
    ContentLength,
    ContentType,
    CSeq,
    Date,
    ErrorInfo,
    Event,
    Expires,
    From,
    InReplyTo,
    MaxForwards,
    MimeVersion,
    MinExpires,
    Organization,
    Priority,
    ProxyAuthenticate,
    ProxyAuthorization,
    ProxyRequire,
    RecordRoute,
    ReferTo,
    ReferredBy,
    ReplyTo,
    Require,
    RetryAfter,
    Route,
    Server,
    Subject,
    Supported,
    Timestamp,
    To,
    Unsupported,
    UserAgent,
    Via,
    Warning,
    WWWAuthenticate,
}

impl SipRFCHeader {
    /// The long form of the name, in lower case.
    pub open spec fn spec_lower_name(self) -> Seq<u8> {
        match self {
            SipRFCHeader::Accept => seq![0x61u8, 0x63u8, 0x63u8, 0x65u8, 0x70u8, 0x74u8],
            SipRFCHeader::AcceptEncoding => seq![0x61u8, 0x63u8, 0x63u8, 0x65u8, 0x70u8, 0x74u8, 0x2Du8, 0x65u8, 0x6Eu8, 0x63u8, 0x6Fu8, 0x64u8, 0x69u8, 0x6Eu8, 0x67u8],
            SipRFCHeader::AcceptLanguage => seq![0x61u8, 0x63u8, 0x63u8, 0x65u8, 0x70u8, 0x74u8, 0x2Du8, 0x6Cu8, 0x61u8, 0x6Eu8, 0x67u8, 0x75u8, 0x61u8, 0x67u8, 0x65u8],
            SipRFCHeader::AlertInfo => seq![0x61u8, 0x6Cu8, 0x65u8, 0x72u8, 0x74u8, 0x2Du8, 0x69u8, 0x6Eu8, 0x66u8, 0x6Fu8],
            SipRFCHeader::Allow => seq![0x61u8, 0x6Cu8, 0x6Cu8, 0x6Fu8, 0x77u8],
            SipRFCHeader::AllowEvents => seq![0x61u8, 0x6Cu8, 0x6Cu8, 0x6Fu8, 0x77u8, 0x2Du8, 0x65u8, 0x76u8, 0x65u8, 0x6Eu8, 0x74u8, 0x73u8],
            SipRFCHeader::AuthenticationInfo => seq![0x61u8, 0x75u8, 0x74u8, 0x68u8, 0x65u8, 0x6Eu8, 0x74u8, 0x69u8, 0x63u8, 0x61u8, 0x74u8, 0x69u8, 0x6Fu8, 0x6Eu8, 0x2Du8, 0x69u8, 0x6Eu8, 0x66u8, 0x6Fu8],
            SipRFCHeader::Authorization => seq![0x61u8, 0x75u8, 0x74u8, 0x68u8, 0x6Fu8, 0x72u8, 0x69u8, 0x7Au8, 0x61u8, 0x74u8, 0x69u8, 0x6Fu8, 0x6Eu8],
            SipRFCHeader::CallID => seq![0x63u8, 0x61u8, 0x6Cu8, 0x6Cu8, 0x2Du8, 0x69u8, 0x64u8],
            SipRFCHeader::CallInfo => seq![0x63u8, 0x61u8, 0x6Cu8, 0x6Cu8, 0x2Du8, 0x69u8, 0x6Eu8, 0x66u8, 0x6Fu8],
            SipRFCHeader::Contact => seq![0x63u8, 0x6Fu8, 0x6Eu8, 0x74u8, 0x61u8, 0x63u8, 0x74u8],
            SipRFCHeader::ContentDisposition => seq![0x63u8, 0x6Fu8, 0x6Eu8, 0x74u8, 0x65u8, 0x6Eu8, 0x74u8, 0x2Du8, 0x64u8, 0x69u8, 0x73u8, 0x70u8, 0x6Fu8, 0x73u8, 0x69u8, 0x74u8, 0x69u8, 0x6Fu8, 0x6Eu8],
            SipRFCHeader::ContentEncoding => seq![0x63u8, 0x6Fu8, 0x6Eu8, 0x74u8, 0x65u8, 0x6Eu8, 0x74u8, 0x2Du8, 0x65u8, 0x6Eu8, 0x63u8, 0x6Fu8, 0x64u8, 0x69u8, 0x6Eu8, 0x67u8],
            SipRFCHeader::ContentLanguage => seq![0x63u8, 0x6Fu8, 0x6Eu8, 0x74u8, 0x65u8, 0x6Eu8, 0x74u8, 0x2Du8, 0x6Cu8, 0x61u8, 0x6Eu8, 0x67u8, 0x75u8, 0x61u8, 0x67u8, 0x65u8],
            SipRFCHeader::ContentLength => seq![0x63u8, 0x6Fu8, 0x6Eu8, 0x74u8, 0x65u8, 0x6Eu8, 0x74u8, 0x2Du8, 0x6Cu8, 0x65u8, 0x6Eu8, 0x67u8, 0x74u8, 0x68u8],
            SipRFCHeader::ContentType => seq![0x63u8, 0x6Fu8, 0x6Eu8, 0x74u8, 0x65u8, 0x6Eu8, 0x74u8, 0x2Du8, 0x74u8, 0x79u8, 0x70u8, 0x65u8],
            SipRFCHeader::CSeq => seq![0x63u8, 0x73u8, 0x65u8, 0x71u8],
            SipRFCHeader::Date => seq![0x64u8, 0x61u8, 0x74u8, 0x65u8],
            SipRFCHeader::ErrorInfo => seq![0x65u8, 0x72u8, 0x72u8, 0x6Fu8, 0x72u8, 0x2Du8, 0x69u8, 0x6Eu8, 0x66u8, 0x6Fu8],
            SipRFCHeader::Event => seq![0x65u8, 0x76u8, 0x65u8, 0x6Eu8, 0x74u8],
            SipRFCHeader::Expires => seq![0x65u8, 0x78u8, 0x70u8, 0x69u8, 0x72u8, 0x65u8, 0x73u8],
            SipRFCHeader::From => seq![0x66u8, 0x72u8, 0x6Fu8, 0x6Du8],
            SipRFCHeader::InReplyTo => seq![0x69u8, 0x6Eu8, 0x2Du8, 0x72u8, 0x65u8, 0x70u8, 0x6Cu8, 0x79u8, 0x2Du8, 0x74u8, 0x6Fu8],
            SipRFCHeader::MaxForwards => seq![0x6Du8, 0x61u8, 0x78u8, 0x2Du8, 0x66u8, 0x6Fu8, 0x72u8, 0x77u8, 0x61u8, 0x72u8, 0x64u8, 0x73u8],
            SipRFCHeader::MimeVersion => seq![0x6Du8, 0x69u8, 0x6Du8, 0x65u8, 0x2Du8, 0x76u8, 0x65u8, 0x72u8, 0x73u8, 0x69u8, 0x6Fu8, 0x6Eu8],
            SipRFCHeader::MinExpires => seq![0x6Du8, 0x69u8, 0x6Eu8, 0x2Du8, 0x65u8, 0x78u8, 0x70u8, 0x69u8, 0x72u8, 0x65u8, 0x73u8],
            SipRFCHeader::Organization => seq![0x6Fu8, 0x72u8, 0x67u8, 0x61u8, 0x6Eu8, 0x69u8, 0x7Au8, 0x61u8, 0x74u8, 0x69u8, 0x6Fu8, 0x6Eu8],
            SipRFCHeader::Priority => seq![0x70u8, 0x72u8, 0x69u8, 0x6Fu8, 0x72u8, 0x69u8, 0x74u8, 0x79u8],
            SipRFCHeader::ProxyAuthenticate => seq![0x70u8, 0x72u8, 0x6Fu8, 0x78u8, 0x79u8, 0x2Du8, 0x61u8, 0x75u8, 0x74u8, 0x68u8, 0x65u8, 0x6Eu8, 0x74u8, 0x69u8, 0x63u8, 0x61u8, 0x74u8, 0x65u8],
            SipRFCHeader::ProxyAuthorization => seq![0x70u8, 0x72u8, 0x6Fu8, 0x78u8, 0x79u8, 0x2Du8, 0x61u8, 0x75u8, 0x74u8, 0x68u8, 0x6Fu8, 0x72u8, 0x69u8, 0x7Au8, 0x61u8, 0x74u8, 0x69u8, 0x6Fu8, 0x6Eu8],
            SipRFCHeader::ProxyRequire => seq![0x70u8, 0x72u8, 0x6Fu8, 0x78u8, 0x79u8, 0x2Du8, 0x72u8, 0x65u8, 0x71u8, 0x75u8, 0x69u8, 0x72u8, 0x65u8],
            SipRFCHeader::RecordRoute => seq![0x72u8, 0x65u8, 0x63u8, 0x6Fu8, 0x72u8, 0x64u8, 0x2Du8, 0x72u8, 0x6Fu8, 0x75u8, 0x74u8, 0x65u8],
            SipRFCHeader::ReferTo => seq![0x72u8, 0x65u8, 0x66u8, 0x65u8, 0x72u8, 0x2Du8, 0x74u8, 0x6Fu8],
            SipRFCHeader::ReferredBy => seq![0x72u8, 0x65u8, 0x66u8, 0x65u8, 0x72u8, 0x72u8, 0x65u8, 0x64u8, 0x2Du8, 0x62u8, 0x79u8],
            SipRFCHeader::ReplyTo => seq![0x72u8, 0x65u8, 0x70u8, 0x6Cu8, 0x79u8, 0x2Du8, 0x74u8, 0x6Fu8],
            SipRFCHeader::Require => seq![0x72u8, 0x65u8, 0x71u8, 0x75u8, 0x69u8, 0x72u8, 0x65u8],
            SipRFCHeader::RetryAfter => seq![0x72u8, 0x65u8, 0x74u8, 0x72u8, 0x79u8, 0x2Du8, 0x61u8, 0x66u8, 0x74u8, 0x65u8, 0x72u8],
            SipRFCHeader::Route => seq![0x72u8, 0x6Fu8, 0x75u8, 0x74u8, 0x65u8],
            SipRFCHeader::Server => seq![0x73u8, 0x65u8, 0x72u8, 0x76u8, 0x65u8, 0x72u8],
            SipRFCHeader::Subject => seq![0x73u8, 0x75u8, 0x62u8, 0x6Au8, 0x65u8, 0x63u8, 0x74u8],
            SipRFCHeader::Supported => seq![0x73u8, 0x75u8, 0x70u8, 0x70u8, 0x6Fu8, 0x72u8, 0x74u8, 0x65u8, 0x64u8],
            SipRFCHeader::Timestamp => seq![0x74u8, 0x69u8, 0x6Du8, 0x65u8, 0x73u8, 0x74u8, 0x61u8, 0x6Du8, 0x70u8],
            SipRFCHeader::To => seq![0x74u8, 0x6Fu8],
            SipRFCHeader::Unsupported => seq![0x75u8, 0x6Eu8, 0x73u8, 0x75u8, 0x70u8, 0x70u8, 0x6Fu8, 0x72u8, 0x74u8, 0x65u8, 0x64u8],
            SipRFCHeader::UserAgent => seq![0x75u8, 0x73u8, 0x65u8, 0x72u8, 0x2Du8, 0x61u8, 0x67u8, 0x65u8, 0x6Eu8, 0x74u8],
            SipRFCHeader::Via => seq![0x76u8, 0x69u8, 0x61u8],
            SipRFCHeader::Warning => seq![0x77u8, 0x61u8, 0x72u8, 0x6Eu8, 0x69u8, 0x6Eu8, 0x67u8],
            SipRFCHeader::WWWAuthenticate => seq![0x77u8, 0x77u8, 0x77u8, 0x2Du8, 0x61u8, 0x75u8, 0x74u8, 0x68u8, 0x65u8, 0x6Eu8, 0x74u8, 0x69u8, 0x63u8, 0x61u8, 0x74u8, 0x65u8],
        }
    }

    /// The compact alias of the name, in lower case, where it has one.
    pub open spec fn spec_compact(self) -> Option<u8> {
        match self {
            SipRFCHeader::AllowEvents => Some(0x75u8),
            SipRFCHeader::CallID => Some(0x69u8),
            SipRFCHeader::Contact => Some(0x6Du8),
            SipRFCHeader::ContentEncoding => Some(0x65u8),
            SipRFCHeader::ContentLength => Some(0x6Cu8),
            SipRFCHeader::ContentType => Some(0x63u8),
            SipRFCHeader::Event => Some(0x6Fu8),
            SipRFCHeader::From => Some(0x66u8),
            SipRFCHeader::ReferTo => Some(0x72u8),
            SipRFCHeader::ReferredBy => Some(0x62u8),
            SipRFCHeader::Subject => Some(0x73u8),
            SipRFCHeader::Supported => Some(0x6Bu8),
            SipRFCHeader::To => Some(0x74u8),
            SipRFCHeader::Via => Some(0x76u8),
            _ => None,
        }
    }

    /// The long form of the name, as RFC 3261 writes it.
    pub open spec fn spec_canonical_name(self) -> Seq<char> {
        match self {
            SipRFCHeader::Accept => seq!['A', 'c', 'c', 'e', 'p', 't'],
            SipRFCHeader::AcceptEncoding => seq!['A', 'c', 'c', 'e', 'p', 't', '-', 'E', 'n', 'c', 'o', 'd', 'i', 'n', 'g'],
            SipRFCHeader::AcceptLanguage => seq!['A', 'c', 'c', 'e', 'p', 't', '-', 'L', 'a', 'n', 'g', 'u', 'a', 'g', 'e'],
            SipRFCHeader::AlertInfo => seq!['A', 'l', 'e', 'r', 't', '-', 'I', 'n', 'f', 'o'],
            SipRFCHeader::Allow => seq!['A', 'l', 'l', 'o', 'w'],
            SipRFCHeader::AllowEvents => seq!['A', 'l', 'l', 'o', 'w', '-', 'E', 'v', 'e', 'n', 't', 's'],
            SipRFCHeader::AuthenticationInfo => seq!['A', 'u', 't', 'h', 'e', 'n', 't', 'i', 'c', 'a', 't', 'i', 'o', 'n', '-', 'I', 'n', 'f', 'o'],
            SipRFCHeader::Authorization => seq!['A', 'u', 't', 'h', 'o', 'r', 'i', 'z', 'a', 't', 'i', 'o', 'n'],
            SipRFCHeader::CallID => seq!['C', 'a', 'l', 'l', '-', 'I', 'D'],
            SipRFCHeader::CallInfo => seq!['C', 'a', 'l', 'l', '-', 'I', 'n', 'f', 'o'],
            SipRFCHeader::Contact => seq!['C', 'o', 'n', 't', 'a', 'c', 't'],
            SipRFCHeader::ContentDisposition => seq!['C', 'o', 'n', 't', 'e', 'n', 't', '-', 'D', 'i', 's', 'p', 'o', 's', 'i', 't', 'i', 'o', 'n'],
            SipRFCHeader::ContentEncoding => seq!['C', 'o', 'n', 't', 'e', 'n', 't', '-', 'E', 'n', 'c', 'o', 'd', 'i', 'n', 'g'],
            SipRFCHeader::ContentLanguage => seq!['C', 'o', 'n', 't', 'e', 'n', 't', '-', 'L', 'a', 'n', 'g', 'u', 'a', 'g', 'e'],
            SipRFCHeader::ContentLength => seq!['C', 'o', 'n', 't', 'e', 'n', 't', '-', 'L', 'e', 'n', 'g', 't', 'h'],
            SipRFCHeader::ContentType => seq!['C', 'o', 'n', 't', 'e', 'n', 't', '-', 'T', 'y', 'p', 'e'],
            SipRFCHeader::CSeq => seq!['C', 'S', 'e', 'q'],
            SipRFCHeader::Date => seq!['D', 'a', 't', 'e'],
            SipRFCHeader::ErrorInfo => seq!['E', 'r', 'r', 'o', 'r', '-', 'I', 'n', 'f', 'o'],
            SipRFCHeader::Event => seq!['E', 'v', 'e', 'n', 't'],
            SipRFCHeader::Expires => seq!['E', 'x', 'p', 'i', 'r', 'e', 's'],
            SipRFCHeader::From => seq!['F', 'r', 'o', 'm'],
            SipRFCHeader::InReplyTo => seq!['I', 'n', '-', 'R', 'e', 'p', 'l', 'y', '-', 'T', 'o'],
            SipRFCHeader::MaxForwards => seq!['M', 'a', 'x', '-', 'F', 'o', 'r', 'w', 'a', 'r', 'd', 's'],
            SipRFCHeader::MimeVersion => seq!['M', 'I', 'M', 'E', '-', 'V', 'e', 'r', 's', 'i', 'o', 'n'],
            SipRFCHeader::MinExpires => seq!['M', 'i', 'n', '-', 'E', 'x', 'p', 'i', 'r', 'e', 's'],
            SipRFCHeader::Organization => seq!['O', 'r', 'g', 'a', 'n', 'i', 'z', 'a', 't', 'i', 'o', 'n'],
            SipRFCHeader::Priority => seq!['P', 'r', 'i', 'o', 'r', 'i', 't', 'y'],
            SipRFCHeader::ProxyAuthenticate => seq!['P', 'r', 'o', 'x', 'y', '-', 'A', 'u', 't', 'h', 'e', 'n', 't', 'i', 'c', 'a', 't', 'e'],
            SipRFCHeader::ProxyAuthorization => seq!['P', 'r', 'o', 'x', 'y', '-', 'A', 'u', 't', 'h', 'o', 'r', 'i', 'z', 'a', 't', 'i', 'o', 'n'],
            SipRFCHeader::ProxyRequire => seq!['P', 'r', 'o', 'x', 'y', '-', 'R', 'e', 'q', 'u', 'i', 'r', 'e'],
            SipRFCHeader::RecordRoute => seq!['R', 'e', 'c', 'o', 'r', 'd', '-', 'R', 'o', 'u', 't', 'e'],
            SipRFCHeader::ReferTo => seq!['R', 'e', 'f', 'e', 'r', '-', 'T', 'o'],
            SipRFCHeader::ReferredBy => seq!['R', 'e', 'f', 'e', 'r', 'r', 'e', 'd', '-', 'B', 'y'],
            SipRFCHeader::ReplyTo => seq!['R', 'e', 'p', 'l', 'y', '-', 'T', 'o'],
            SipRFCHeader::Require => seq!['R', 'e', 'q', 'u', 'i', 'r', 'e'],
            SipRFCHeader::RetryAfter => seq!['R', 'e', 't', 'r', 'y', '-', 'A', 'f', 't', 'e', 'r'],
            SipRFCHeader::Route => seq!['R', 'o', 'u', 't', 'e'],
            SipRFCHeader::Server => seq!['S', 'e', 'r', 'v', 'e', 'r'],
            SipRFCHeader::Subject => seq!['S', 'u', 'b', 'j', 'e', 'c', 't'],
            SipRFCHeader::Supported => seq!['S', 'u', 'p', 'p', 'o', 'r', 't', 'e', 'd'],
            SipRFCHeader::Timestamp => seq!['T', 'i', 'm', 'e', 's', 't', 'a', 'm', 'p'],
            SipRFCHeader::To => seq!['T', 'o'],
            SipRFCHeader::Unsupported => seq!['U', 'n', 's', 'u', 'p', 'p', 'o', 'r', 't', 'e', 'd'],
            SipRFCHeader::UserAgent => seq!['U', 's', 'e', 'r', '-', 'A', 'g', 'e', 'n', 't'],
            SipRFCHeader::Via => seq!['V', 'i', 'a'],
            SipRFCHeader::Warning => seq!['W', 'a', 'r', 'n', 'i', 'n', 'g'],
            SipRFCHeader::WWWAuthenticate => seq!['W', 'W', 'W', '-', 'A', 'u', 't', 'h', 'e', 'n', 't', 'i', 'c', 'a', 't', 'e'],
        }
    }

    /// The long form of the name, as RFC 3261 writes it; in lower case it is `spec_lower_name`.
    pub fn canonical_name(&self) -> (r: &'static str)
        ensures
            r@ == self.spec_canonical_name(),
            r@.len() == self.spec_lower_name().len(),
            forall|k: int| 0 <= k < r@.len() ==> spec_lower_char(#[trigger] r@[k]) == self.spec_lower_name()[k],
    {
        match self {
            SipRFCHeader::Accept => {
                proof {
                    reveal_strlit("Accept");
                }
                "Accept"
            },
            SipRFCHeader::AcceptEncoding => {
                proof {
                    reveal_strlit("Accept-Encoding");
                }
                "Accept-Encoding"
            },
            SipRFCHeader::AcceptLanguage => {
                proof {
                    reveal_strlit("Accept-Language");
                }
                "Accept-Language"
            },
            SipRFCHeader::AlertInfo => {
                proof {
                    reveal_strlit("Alert-Info");
                }
                "Alert-Info"
            },
            SipRFCHeader::Allow => {
                proof {
                    reveal_strlit("Allow");
                }
                "Allow"
            },
            SipRFCHeader::AllowEvents => {
                proof {
                    reveal_strlit("Allow-Events");
                }
                "Allow-Events"
            },
            SipRFCHeader::AuthenticationInfo => {
                proof {
                    reveal_strlit("Authentication-Info");
                }
                "Authentication-Info"
            },
            SipRFCHeader::Authorization => {
                proof {
                    reveal_strlit("Authorization");
                }
                "Authorization"
            },
            SipRFCHeader::CallID => {
                proof {
                    reveal_strlit("Call-ID");
                }
                "Call-ID"
            },
            SipRFCHeader::CallInfo => {
                proof {
                    reveal_strlit("Call-Info");
                }
                "Call-Info"
            },
            SipRFCHeader::Contact => {
                proof {
                    reveal_strlit("Contact");
                }
                "Contact"
            },
            SipRFCHeader::ContentDisposition => {
                proof {
                    reveal_strlit("Content-Disposition");
                }
                "Content-Disposition"
            },
            SipRFCHeader::ContentEncoding => {
                proof {
                    reveal_strlit("Content-Encoding");
                }
                "Content-Encoding"
            },
            SipRFCHeader::ContentLanguage => {
                proof {
                    reveal_strlit("Content-Language");
                }
                "Content-Language"
            },
            SipRFCHeader::ContentLength => {
                proof {
                    reveal_strlit("Content-Length");
                }
                "Content-Length"
            },
            SipRFCHeader::ContentType => {
                proof {
                    reveal_strlit("Content-Type");
                }
                "Content-Type"
            },
            SipRFCHeader::CSeq => {
                proof {
                    reveal_strlit("CSeq");
                }
                "CSeq"
            },
            SipRFCHeader::Date => {
                proof {
                    reveal_strlit("Date");
                }
                "Date"
            },
            SipRFCHeader::ErrorInfo => {
                proof {
                    reveal_strlit("Error-Info");
                }
                "Error-Info"
            },
            SipRFCHeader::Event => {
                proof {
                    reveal_strlit("Event");
                }
                "Event"
            },
            SipRFCHeader::Expires => {
                proof {
                    reveal_strlit("Expires");
                }
                "Expires"
            },
            SipRFCHeader::From => {
                proof {
                    reveal_strlit("From");
                }
                "From"
            },
            SipRFCHeader::InReplyTo => {
                proof {
                    reveal_strlit("In-Reply-To");
                }
                "In-Reply-To"
            },
            SipRFCHeader::MaxForwards => {
                proof {
                    reveal_strlit("Max-Forwards");
                }
                "Max-Forwards"
            },
            SipRFCHeader::MimeVersion => {
                proof {
                    reveal_strlit("MIME-Version");
                }
                "MIME-Version"
            },
            SipRFCHeader::MinExpires => {
                proof {
                    reveal_strlit("Min-Expires");
                }
                "Min-Expires"
            },
            SipRFCHeader::Organization => {
                proof {
                    reveal_strlit("Organization");
                }
                "Organization"
            },
            SipRFCHeader::Priority => {
                proof {
                    reveal_strlit("Priority");
                }
                "Priority"
            },
            SipRFCHeader::ProxyAuthenticate => {
                proof {
                    reveal_strlit("Proxy-Authenticate");
                }
                "Proxy-Authenticate"
            },
            SipRFCHeader::ProxyAuthorization => {
                proof {
                    reveal_strlit("Proxy-Authorization");
                }
                "Proxy-Authorization"
            },
            SipRFCHeader::ProxyRequire => {
                proof {
                    reveal_strlit("Proxy-Require");
                }
                "Proxy-Require"
            },
            SipRFCHeader::RecordRoute => {
                proof {
                    reveal_strlit("Record-Route");
                }
                "Record-Route"
            },
            SipRFCHeader::ReferTo => {
                proof {
                    reveal_strlit("Refer-To");
                }
                "Refer-To"
            },
            SipRFCHeader::ReferredBy => {
                proof {
                    reveal_strlit("Referred-By");
                }
                "Referred-By"
            },
            SipRFCHeader::ReplyTo => {
                proof {
                    reveal_strlit("Reply-To");
                }
                "Reply-To"
            },
            SipRFCHeader::Require => {
                proof {
                    reveal_strlit("Require");
                }
                "Require"
            },
            SipRFCHeader::RetryAfter => {
                proof {
                    reveal_strlit("Retry-After");
                }
                "Retry-After"
            },
            SipRFCHeader::Route => {
                proof {
                    reveal_strlit("Route");
                }
                "Route"
            },
            SipRFCHeader::Server => {
                proof {
                    reveal_strlit("Server");
                }
                "Server"
            },
            SipRFCHeader::Subject => {
                proof {
                    reveal_strlit("Subject");
                }
                "Subject"
            },
            SipRFCHeader::Supported => {
                proof {
                    reveal_strlit("Supported");
                }
                "Supported"
            },
            SipRFCHeader::Timestamp => {
                proof {
                    reveal_strlit("Timestamp");
                }
                "Timestamp"
            },
            SipRFCHeader::To => {
                proof {
                    reveal_strlit("To");
                }
                "To"
            },
            SipRFCHeader::Unsupported => {
                proof {
                    reveal_strlit("Unsupported");
                }
                "Unsupported"
            },
            SipRFCHeader::UserAgent => {
                proof {
                    reveal_strlit("User-Agent");
                }
                "User-Agent"
            },
            SipRFCHeader::Via => {
                proof {
                    reveal_strlit("Via");
                }
                "Via"
            },
            SipRFCHeader::Warning => {
                proof {
                    reveal_strlit("Warning");
                }
                "Warning"
            },
            SipRFCHeader::WWWAuthenticate => {
                proof {
                    reveal_strlit("WWW-Authenticate");
                }
                "WWW-Authenticate"
            },
        }
    }
}

/// The octet of an ASCII character, in lower case.
pub open spec fn spec_lower_char(c: char) -> u8 {
    if 'A' <= c && c <= 'Z' {
        ((c as u32) + 32) as u8
    } else {
        (c as u32) as u8
    }
}

/// The header that a lower-case long name or compact alias stands for.
pub open spec fn spec_rfc_header_of_lower(l: Seq<u8>) -> Option<SipRFCHeader> {
    if l == seq![0x61u8, 0x63u8, 0x63u8, 0x65u8, 0x70u8, 0x74u8] {
        Some(SipRFCHeader::Accept)
    }
    else if l == seq![0x61u8, 0x63u8, 0x63u8, 0x65u8, 0x70u8, 0x74u8, 0x2Du8, 0x65u8, 0x6Eu8, 0x63u8, 0x6Fu8, 0x64u8, 0x69u8, 0x6Eu8, 0x67u8] {
        Some(SipRFCHeader::AcceptEncoding)
    }
    else if l == seq![0x61u8, 0x63u8, 0x63u8, 0x65u8, 0x70u8, 0x74u8, 0x2Du8, 0x6Cu8, 0x61u8, 0x6Eu8, 0x67u8, 0x75u8, 0x61u8, 0x67u8, 0x65u8] {
        Some(SipRFCHeader::AcceptLanguage)
    }
    else if l == seq![0x61u8, 0x6Cu8, 0x65u8, 0x72u8, 0x74u8, 0x2Du8, 0x69u8, 0x6Eu8, 0x66u8, 0x6Fu8] {
        Some(SipRFCHeader::AlertInfo)
    }
    else if l == seq![0x61u8, 0x6Cu8, 0x6Cu8, 0x6Fu8, 0x77u8] {
        Some(SipRFCHeader::Allow)
    }
    else if l == seq![0x61u8, 0x6Cu8, 0x6Cu8, 0x6Fu8, 0x77u8, 0x2Du8, 0x65u8, 0x76u8, 0x65u8, 0x6Eu8, 0x74u8, 0x73u8] || l == seq![0x75u8] {
        Some(SipRFCHeader::AllowEvents)
    }
    else if l == seq![0x61u8, 0x75u8, 0x74u8, 0x68u8, 0x65u8, 0x6Eu8, 0x74u8, 0x69u8, 0x63u8, 0x61u8, 0x74u8, 0x69u8, 0x6Fu8, 0x6Eu8, 0x2Du8, 0x69u8, 0x6Eu8, 0x66u8, 0x6Fu8] {
        Some(SipRFCHeader::AuthenticationInfo)
    }
    else if l == seq![0x61u8, 0x75u8, 0x74u8, 0x68u8, 0x6Fu8, 0x72u8, 0x69u8, 0x7Au8, 0x61u8, 0x74u8, 0x69u8, 0x6Fu8, 0x6Eu8] {
        Some(SipRFCHeader::Authorization)
    }
    else if l == seq![0x63u8, 0x61u8, 0x6Cu8, 0x6Cu8, 0x2Du8, 0x69u8, 0x64u8] || l == seq![0x69u8] {
        Some(SipRFCHeader::CallID)
    }
    else if l == seq![0x63u8, 0x61u8, 0x6Cu8, 0x6Cu8, 0x2Du8, 0x69u8, 0x6Eu8, 0x66u8, 0x6Fu8] {
        Some(SipRFCHeader::CallInfo)
    }
    else if l == seq![0x63u8, 0x6Fu8, 0x6Eu8, 0x74u8, 0x61u8, 0x63u8, 0x74u8] || l == seq![0x6Du8] {
        Some(SipRFCHeader::Contact)
    }
    else if l == seq![0x63u8, 0x6Fu8, 0x6Eu8, 0x74u8, 0x65u8, 0x6Eu8, 0x74u8, 0x2Du8, 0x64u8, 0x69u8, 0x73u8, 0x70u8, 0x6Fu8, 0x73u8, 0x69u8, 0x74u8, 0x69u8, 0x6Fu8, 0x6Eu8] {
        Some(SipRFCHeader::ContentDisposition)
    }
    else if l == seq![0x63u8, 0x6Fu8, 0x6Eu8, 0x74u8, 0x65u8, 0x6Eu8, 0x74u8, 0x2Du8, 0x65u8, 0x6Eu8, 0x63u8, 0x6Fu8, 0x64u8, 0x69u8, 0x6Eu8, 0x67u8] || l == seq![0x65u8] {
        Some(SipRFCHeader::ContentEncoding)
    }
    else if l == seq![0x63u8, 0x6Fu8, 0x6Eu8, 0x74u8, 0x65u8, 0x6Eu8, 0x74u8, 0x2Du8, 0x6Cu8, 0x61u8, 0x6Eu8, 0x67u8, 0x75u8, 0x61u8, 0x67u8, 0x65u8] {
        Some(SipRFCHeader::ContentLanguage)
    }
    else if l == seq![0x63u8, 0x6Fu8, 0x6Eu8, 0x74u8, 0x65u8, 0x6Eu8, 0x74u8, 0x2Du8, 0x6Cu8, 0x65u8, 0x6Eu8, 0x67u8, 0x74u8, 0x68u8] || l == seq![0x6Cu8] {
        Some(SipRFCHeader::ContentLength)
    }
    else if l == seq![0x63u8, 0x6Fu8, 0x6Eu8, 0x74u8, 0x65u8, 0x6Eu8, 0x74u8, 0x2Du8, 0x74u8, 0x79u8, 0x70u8, 0x65u8] || l == seq![0x63u8] {
        Some(SipRFCHeader::ContentType)
    }
    else if l == seq![0x63u8, 0x73u8, 0x65u8, 0x71u8] {
        Some(SipRFCHeader::CSeq)
    }
    else if l == seq![0x64u8, 0x61u8, 0x74u8, 0x65u8] {
        Some(SipRFCHeader::Date)
    }
    else if l == seq![0x65u8, 0x72u8, 0x72u8, 0x6Fu8, 0x72u8, 0x2Du8, 0x69u8, 0x6Eu8, 0x66u8, 0x6Fu8] {
        Some(SipRFCHeader::ErrorInfo)
    }
    else if l == seq![0x65u8, 0x76u8, 0x65u8, 0x6Eu8, 0x74u8] || l == seq![0x6Fu8] {
        Some(SipRFCHeader::Event)
    }
    else if l == seq![0x65u8, 0x78u8, 0x70u8, 0x69u8, 0x72u8, 0x65u8, 0x73u8] {
        Some(SipRFCHeader::Expires)
    }
    else if l == seq![0x66u8, 0x72u8, 0x6Fu8, 0x6Du8] || l == seq![0x66u8] {
        Some(SipRFCHeader::From)
    }
    else if l == seq![0x69u8, 0x6Eu8, 0x2Du8, 0x72u8, 0x65u8, 0x70u8, 0x6Cu8, 0x79u8, 0x2Du8, 0x74u8, 0x6Fu8] {
        Some(SipRFCHeader::InReplyTo)
    }
    else if l == seq![0x6Du8, 0x61u8, 0x78u8, 0x2Du8, 0x66u8, 0x6Fu8, 0x72u8, 0x77u8, 0x61u8, 0x72u8, 0x64u8, 0x73u8] {
        Some(SipRFCHeader::MaxForwards)
    }
    else if l == seq![0x6Du8, 0x69u8, 0x6Du8, 0x65u8, 0x2Du8, 0x76u8, 0x65u8, 0x72u8, 0x73u8, 0x69u8, 0x6Fu8, 0x6Eu8] {
        Some(SipRFCHeader::MimeVersion)
    }
    else if l == seq![0x6Du8, 0x69u8, 0x6Eu8, 0x2Du8, 0x65u8, 0x78u8, 0x70u8, 0x69u8, 0x72u8, 0x65u8, 0x73u8] {
        Some(SipRFCHeader::MinExpires)
    }
    else if l == seq![0x6Fu8, 0x72u8, 0x67u8, 0x61u8, 0x6Eu8, 0x69u8, 0x7Au8, 0x61u8, 0x74u8, 0x69u8, 0x6Fu8, 0x6Eu8] {
        Some(SipRFCHeader::Organization)
    }
    else if l == seq![0x70u8, 0x72u8, 0x69u8, 0x6Fu8, 0x72u8, 0x69u8, 0x74u8, 0x79u8] {
        Some(SipRFCHeader::Priority)
    }
    else if l == seq![0x70u8, 0x72u8, 0x6Fu8, 0x78u8, 0x79u8, 0x2Du8, 0x61u8, 0x75u8, 0x74u8, 0x68u8, 0x65u8, 0x6Eu8, 0x74u8, 0x69u8, 0x63u8, 0x61u8, 0x74u8, 0x65u8] {
        Some(SipRFCHeader::ProxyAuthenticate)
    }
    else if l == seq![0x70u8, 0x72u8, 0x6Fu8, 0x78u8, 0x79u8, 0x2Du8, 0x61u8, 0x75u8, 0x74u8, 0x68u8, 0x6Fu8, 0x72u8, 0x69u8, 0x7Au8, 0x61u8, 0x74u8, 0x69u8, 0x6Fu8, 0x6Eu8] {
        Some(SipRFCHeader::ProxyAuthorization)
    }
    else if l == seq![0x70u8, 0x72u8, 0x6Fu8, 0x78u8, 0x79u8, 0x2Du8, 0x72u8, 0x65u8, 0x71u8, 0x75u8, 0x69u8, 0x72u8, 0x65u8] {
        Some(SipRFCHeader::ProxyRequire)
    }
    else if l == seq![0x72u8, 0x65u8, 0x63u8, 0x6Fu8, 0x72u8, 0x64u8, 0x2Du8, 0x72u8, 0x6Fu8, 0x75u8, 0x74u8, 0x65u8] {
        Some(SipRFCHeader::RecordRoute)
    }
    else if l == seq![0x72u8, 0x65u8, 0x66u8, 0x65u8, 0x72u8, 0x2Du8, 0x74u8, 0x6Fu8] || l == seq![0x72u8] {
        Some(SipRFCHeader::ReferTo)
    }
    else if l == seq![0x72u8, 0x65u8, 0x66u8, 0x65u8, 0x72u8, 0x72u8, 0x65u8, 0x64u8, 0x2Du8, 0x62u8, 0x79u8] || l == seq![0x62u8] {
        Some(SipRFCHeader::ReferredBy)
    }
    else if l == seq![0x72u8, 0x65u8, 0x70u8, 0x6Cu8, 0x79u8, 0x2Du8, 0x74u8, 0x6Fu8] {
        Some(SipRFCHeader::ReplyTo)
    }
    else if l == seq![0x72u8, 0x65u8, 0x71u8, 0x75u8, 0x69u8, 0x72u8, 0x65u8] {
        Some(SipRFCHeader::Require)
    }
    else if l == seq![0x72u8, 0x65u8, 0x74u8, 0x72u8, 0x79u8, 0x2Du8, 0x61u8, 0x66u8, 0x74u8, 0x65u8, 0x72u8] {
        Some(SipRFCHeader::RetryAfter)
    }
    else if l == seq![0x72u8, 0x6Fu8, 0x75u8, 0x74u8, 0x65u8] {
        Some(SipRFCHeader::Route)
    }
    else if l == seq![0x73u8, 0x65u8, 0x72u8, 0x76u8, 0x65u8, 0x72u8] {
        Some(SipRFCHeader::Server)
    }
    else if l == seq![0x73u8, 0x75u8, 0x62u8, 0x6Au8, 0x65u8, 0x63u8, 0x74u8] || l == seq![0x73u8] {
        Some(SipRFCHeader::Subject)
    }
    else if l == seq![0x73u8, 0x75u8, 0x70u8, 0x70u8, 0x6Fu8, 0x72u8, 0x74u8, 0x65u8, 0x64u8] || l == seq![0x6Bu8] {
        Some(SipRFCHeader::Supported)
    }
    else if l == seq![0x74u8, 0x69u8, 0x6Du8, 0x65u8, 0x73u8, 0x74u8, 0x61u8, 0x6Du8, 0x70u8] {
        Some(SipRFCHeader::Timestamp)
    }
    else if l == seq![0x74u8, 0x6Fu8] || l == seq![0x74u8] {
        Some(SipRFCHeader::To)
    }
    else if l == seq![0x75u8, 0x6Eu8, 0x73u8, 0x75u8, 0x70u8, 0x70u8, 0x6Fu8, 0x72u8, 0x74u8, 0x65u8, 0x64u8] {
        Some(SipRFCHeader::Unsupported)
    }
    else if l == seq![0x75u8, 0x73u8, 0x65u8, 0x72u8, 0x2Du8, 0x61u8, 0x67u8, 0x65u8, 0x6Eu8, 0x74u8] {
        Some(SipRFCHeader::UserAgent)
    }
    else if l == seq![0x76u8, 0x69u8, 0x61u8] || l == seq![0x76u8] {
        Some(SipRFCHeader::Via)
    }
    else if l == seq![0x77u8, 0x61u8, 0x72u8, 0x6Eu8, 0x69u8, 0x6Eu8, 0x67u8] {
        Some(SipRFCHeader::Warning)
    }
    else if l == seq![0x77u8, 0x77u8, 0x77u8, 0x2Du8, 0x61u8, 0x75u8, 0x74u8, 0x68u8, 0x65u8, 0x6Eu8, 0x74u8, 0x69u8, 0x63u8, 0x61u8, 0x74u8, 0x65u8] {
        Some(SipRFCHeader::WWWAuthenticate)
    }
    else {
        None
    }
}

fn rfc_header_of_lower(l: &[u8]) -> (r: Option<SipRFCHeader>)
    ensures
        r == spec_rfc_header_of_lower(l@),
{
    if bytes_eq(l, &vec![0x61u8, 0x63u8, 0x63u8, 0x65u8, 0x70u8, 0x74u8]) {
        Some(SipRFCHeader::Accept)
    }
    else if bytes_eq(l, &vec![0x61u8, 0x63u8, 0x63u8, 0x65u8, 0x70u8, 0x74u8, 0x2Du8, 0x65u8, 0x6Eu8, 0x63u8, 0x6Fu8, 0x64u8, 0x69u8, 0x6Eu8, 0x67u8]) {
        Some(SipRFCHeader::AcceptEncoding)
    }
    else if bytes_eq(l, &vec![0x61u8, 0x63u8, 0x63u8, 0x65u8, 0x70u8, 0x74u8, 0x2Du8, 0x6Cu8, 0x61u8, 0x6Eu8, 0x67u8, 0x75u8, 0x61u8, 0x67u8, 0x65u8]) {
        Some(SipRFCHeader::AcceptLanguage)
    }
    else if bytes_eq(l, &vec![0x61u8, 0x6Cu8, 0x65u8, 0x72u8, 0x74u8, 0x2Du8, 0x69u8, 0x6Eu8, 0x66u8, 0x6Fu8]) {
        Some(SipRFCHeader::AlertInfo)
    }
    else if bytes_eq(l, &vec![0x61u8, 0x6Cu8, 0x6Cu8, 0x6Fu8, 0x77u8]) {
        Some(SipRFCHeader::Allow)
    }
    else if bytes_eq(l, &vec![0x61u8, 0x6Cu8, 0x6Cu8, 0x6Fu8, 0x77u8, 0x2Du8, 0x65u8, 0x76u8, 0x65u8, 0x6Eu8, 0x74u8, 0x73u8]) || (l.len() == 1 && l[0] == 0x75u8) {
        proof { if l@.len() == 1 && l@[0] == 0x75u8 { lemma_single(l@, 0x75u8); } }
        Some(SipRFCHeader::AllowEvents)
    }
    else if bytes_eq(l, &vec![0x61u8, 0x75u8, 0x74u8, 0x68u8, 0x65u8, 0x6Eu8, 0x74u8, 0x69u8, 0x63u8, 0x61u8, 0x74u8, 0x69u8, 0x6Fu8, 0x6Eu8, 0x2Du8, 0x69u8, 0x6Eu8, 0x66u8, 0x6Fu8]) {
        Some(SipRFCHeader::AuthenticationInfo)
    }
    else if bytes_eq(l, &vec![0x61u8, 0x75u8, 0x74u8, 0x68u8, 0x6Fu8, 0x72u8, 0x69u8, 0x7Au8, 0x61u8, 0x74u8, 0x69u8, 0x6Fu8, 0x6Eu8]) {
        Some(SipRFCHeader::Authorization)
    }
    else if bytes_eq(l, &vec![0x63u8, 0x61u8, 0x6Cu8, 0x6Cu8, 0x2Du8, 0x69u8, 0x64u8]) || (l.len() == 1 && l[0] == 0x69u8) {
        proof { if l@.len() == 1 && l@[0] == 0x69u8 { lemma_single(l@, 0x69u8); } }
        Some(SipRFCHeader::CallID)
    }
    else if bytes_eq(l, &vec![0x63u8, 0x61u8, 0x6Cu8, 0x6Cu8, 0x2Du8, 0x69u8, 0x6Eu8, 0x66u8, 0x6Fu8]) {
        Some(SipRFCHeader::CallInfo)
    }
    else if bytes_eq(l, &vec![0x63u8, 0x6Fu8, 0x6Eu8, 0x74u8, 0x61u8, 0x63u8, 0x74u8]) || (l.len() == 1 && l[0] == 0x6Du8) {
        proof { if l@.len() == 1 && l@[0] == 0x6Du8 { lemma_single(l@, 0x6Du8); } }
        Some(SipRFCHeader::Contact)
    }
    else if bytes_eq(l, &vec![0x63u8, 0x6Fu8, 0x6Eu8, 0x74u8, 0x65u8, 0x6Eu8, 0x74u8, 0x2Du8, 0x64u8, 0x69u8, 0x73u8, 0x70u8, 0x6Fu8, 0x73u8, 0x69u8, 0x74u8, 0x69u8, 0x6Fu8, 0x6Eu8]) {
        Some(SipRFCHeader::ContentDisposition)
    }
    else if bytes_eq(l, &vec![0x63u8, 0x6Fu8, 0x6Eu8, 0x74u8, 0x65u8, 0x6Eu8, 0x74u8, 0x2Du8, 0x65u8, 0x6Eu8, 0x63u8, 0x6Fu8, 0x64u8, 0x69u8, 0x6Eu8, 0x67u8]) || (l.len() == 1 && l[0] == 0x65u8) {
        proof { if l@.len() == 1 && l@[0] == 0x65u8 { lemma_single(l@, 0x65u8); } }
        Some(SipRFCHeader::ContentEncoding)
    }
    else if bytes_eq(l, &vec![0x63u8, 0x6Fu8, 0x6Eu8, 0x74u8, 0x65u8, 0x6Eu8, 0x74u8, 0x2Du8, 0x6Cu8, 0x61u8, 0x6Eu8, 0x67u8, 0x75u8, 0x61u8, 0x67u8, 0x65u8]) {
        Some(SipRFCHeader::ContentLanguage)
    }
    else if bytes_eq(l, &vec![0x63u8, 0x6Fu8, 0x6Eu8, 0x74u8, 0x65u8, 0x6Eu8, 0x74u8, 0x2Du8, 0x6Cu8, 0x65u8, 0x6Eu8, 0x67u8, 0x74u8, 0x68u8]) || (l.len() == 1 && l[0] == 0x6Cu8) {
        proof { if l@.len() == 1 && l@[0] == 0x6Cu8 { lemma_single(l@, 0x6Cu8); } }
        Some(SipRFCHeader::ContentLength)
    }
    else if bytes_eq(l, &vec![0x63u8, 0x6Fu8, 0x6Eu8, 0x74u8, 0x65u8, 0x6Eu8, 0x74u8, 0x2Du8, 0x74u8, 0x79u8, 0x70u8, 0x65u8]) || (l.len() == 1 && l[0] == 0x63u8) {
        proof { if l@.len() == 1 && l@[0] == 0x63u8 { lemma_single(l@, 0x63u8); } }
        Some(SipRFCHeader::ContentType)
    }
    else if bytes_eq(l, &vec![0x63u8, 0x73u8, 0x65u8, 0x71u8]) {
        Some(SipRFCHeader::CSeq)
    }
    else if bytes_eq(l, &vec![0x64u8, 0x61u8, 0x74u8, 0x65u8]) {
        Some(SipRFCHeader::Date)
    }
    else if bytes_eq(l, &vec![0x65u8, 0x72u8, 0x72u8, 0x6Fu8, 0x72u8, 0x2Du8, 0x69u8, 0x6Eu8, 0x66u8, 0x6Fu8]) {
        Some(SipRFCHeader::ErrorInfo)
    }
    else if bytes_eq(l, &vec![0x65u8, 0x76u8, 0x65u8, 0x6Eu8, 0x74u8]) || (l.len() == 1 && l[0] == 0x6Fu8) {
        proof { if l@.len() == 1 && l@[0] == 0x6Fu8 { lemma_single(l@, 0x6Fu8); } }
        Some(SipRFCHeader::Event)
    }
    else if bytes_eq(l, &vec![0x65u8, 0x78u8, 0x70u8, 0x69u8, 0x72u8, 0x65u8, 0x73u8]) {
        Some(SipRFCHeader::Expires)
    }
    else if bytes_eq(l, &vec![0x66u8, 0x72u8, 0x6Fu8, 0x6Du8]) || (l.len() == 1 && l[0] == 0x66u8) {
        proof { if l@.len() == 1 && l@[0] == 0x66u8 { lemma_single(l@, 0x66u8); } }
        Some(SipRFCHeader::From)
    }
    else if bytes_eq(l, &vec![0x69u8, 0x6Eu8, 0x2Du8, 0x72u8, 0x65u8, 0x70u8, 0x6Cu8, 0x79u8, 0x2Du8, 0x74u8, 0x6Fu8]) {
        Some(SipRFCHeader::InReplyTo)
    }
    else if bytes_eq(l, &vec![0x6Du8, 0x61u8, 0x78u8, 0x2Du8, 0x66u8, 0x6Fu8, 0x72u8, 0x77u8, 0x61u8, 0x72u8, 0x64u8, 0x73u8]) {
        Some(SipRFCHeader::MaxForwards)
    }
    else if bytes_eq(l, &vec![0x6Du8, 0x69u8, 0x6Du8, 0x65u8, 0x2Du8, 0x76u8, 0x65u8, 0x72u8, 0x73u8, 0x69u8, 0x6Fu8, 0x6Eu8]) {
        Some(SipRFCHeader::MimeVersion)
    }
    else if bytes_eq(l, &vec![0x6Du8, 0x69u8, 0x6Eu8, 0x2Du8, 0x65u8, 0x78u8, 0x70u8, 0x69u8, 0x72u8, 0x65u8, 0x73u8]) {
        Some(SipRFCHeader::MinExpires)
    }
    else if bytes_eq(l, &vec![0x6Fu8, 0x72u8, 0x67u8, 0x61u8, 0x6Eu8, 0x69u8, 0x7Au8, 0x61u8, 0x74u8, 0x69u8, 0x6Fu8, 0x6Eu8]) {
        Some(SipRFCHeader::Organization)
    }
    else if bytes_eq(l, &vec![0x70u8, 0x72u8, 0x69u8, 0x6Fu8, 0x72u8, 0x69u8, 0x74u8, 0x79u8]) {
        Some(SipRFCHeader::Priority)
    }
    else if bytes_eq(l, &vec![0x70u8, 0x72u8, 0x6Fu8, 0x78u8, 0x79u8, 0x2Du8, 0x61u8, 0x75u8, 0x74u8, 0x68u8, 0x65u8, 0x6Eu8, 0x74u8, 0x69u8, 0x63u8, 0x61u8, 0x74u8, 0x65u8]) {
        Some(SipRFCHeader::ProxyAuthenticate)
    }
    else if bytes_eq(l, &vec![0x70u8, 0x72u8, 0x6Fu8, 0x78u8, 0x79u8, 0x2Du8, 0x61u8, 0x75u8, 0x74u8, 0x68u8, 0x6Fu8, 0x72u8, 0x69u8, 0x7Au8, 0x61u8, 0x74u8, 0x69u8, 0x6Fu8, 0x6Eu8]) {
        Some(SipRFCHeader::ProxyAuthorization)
    }
    else if bytes_eq(l, &vec![0x70u8, 0x72u8, 0x6Fu8, 0x78u8, 0x79u8, 0x2Du8, 0x72u8, 0x65u8, 0x71u8, 0x75u8, 0x69u8, 0x72u8, 0x65u8]) {
        Some(SipRFCHeader::ProxyRequire)
    }
    else if bytes_eq(l, &vec![0x72u8, 0x65u8, 0x63u8, 0x6Fu8, 0x72u8, 0x64u8, 0x2Du8, 0x72u8, 0x6Fu8, 0x75u8, 0x74u8, 0x65u8]) {
        Some(SipRFCHeader::RecordRoute)
    }
    else if bytes_eq(l, &vec![0x72u8, 0x65u8, 0x66u8, 0x65u8, 0x72u8, 0x2Du8, 0x74u8, 0x6Fu8]) || (l.len() == 1 && l[0] == 0x72u8) {
        proof { if l@.len() == 1 && l@[0] == 0x72u8 { lemma_single(l@, 0x72u8); } }
        Some(SipRFCHeader::ReferTo)
    }
    else if bytes_eq(l, &vec![0x72u8, 0x65u8, 0x66u8, 0x65u8, 0x72u8, 0x72u8, 0x65u8, 0x64u8, 0x2Du8, 0x62u8, 0x79u8]) || (l.len() == 1 && l[0] == 0x62u8) {
        proof { if l@.len() == 1 && l@[0] == 0x62u8 { lemma_single(l@, 0x62u8); } }
        Some(SipRFCHeader::ReferredBy)
    }
    else if bytes_eq(l, &vec![0x72u8, 0x65u8, 0x70u8, 0x6Cu8, 0x79u8, 0x2Du8, 0x74u8, 0x6Fu8]) {
        Some(SipRFCHeader::ReplyTo)
    }
    else if bytes_eq(l, &vec![0x72u8, 0x65u8, 0x71u8, 0x75u8, 0x69u8, 0x72u8, 0x65u8]) {
        Some(SipRFCHeader::Require)
    }
    else if bytes_eq(l, &vec![0x72u8, 0x65u8, 0x74u8, 0x72u8, 0x79u8, 0x2Du8, 0x61u8, 0x66u8, 0x74u8, 0x65u8, 0x72u8]) {
        Some(SipRFCHeader::RetryAfter)
    }
    else if bytes_eq(l, &vec![0x72u8, 0x6Fu8, 0x75u8, 0x74u8, 0x65u8]) {
        Some(SipRFCHeader::Route)
    }
    else if bytes_eq(l, &vec![0x73u8, 0x65u8, 0x72u8, 0x76u8, 0x65u8, 0x72u8]) {
        Some(SipRFCHeader::Server)
    }
    else if bytes_eq(l, &vec![0x73u8, 0x75u8, 0x62u8, 0x6Au8, 0x65u8, 0x63u8, 0x74u8]) || (l.len() == 1 && l[0] == 0x73u8) {
        proof { if l@.len() == 1 && l@[0] == 0x73u8 { lemma_single(l@, 0x73u8); } }
        Some(SipRFCHeader::Subject)
    }
    else if bytes_eq(l, &vec![0x73u8, 0x75u8, 0x70u8, 0x70u8, 0x6Fu8, 0x72u8, 0x74u8, 0x65u8, 0x64u8]) || (l.len() == 1 && l[0] == 0x6Bu8) {
        proof { if l@.len() == 1 && l@[0] == 0x6Bu8 { lemma_single(l@, 0x6Bu8); } }
        Some(SipRFCHeader::Supported)
    }
    else if bytes_eq(l, &vec![0x74u8, 0x69u8, 0x6Du8, 0x65u8, 0x73u8, 0x74u8, 0x61u8, 0x6Du8, 0x70u8]) {
        Some(SipRFCHeader::Timestamp)
    }
    else if bytes_eq(l, &vec![0x74u8, 0x6Fu8]) || (l.len() == 1 && l[0] == 0x74u8) {
        proof { if l@.len() == 1 && l@[0] == 0x74u8 { lemma_single(l@, 0x74u8); } }
        Some(SipRFCHeader::To)
    }
    else if bytes_eq(l, &vec![0x75u8, 0x6Eu8, 0x73u8, 0x75u8, 0x70u8, 0x70u8, 0x6Fu8, 0x72u8, 0x74u8, 0x65u8, 0x64u8]) {
        Some(SipRFCHeader::Unsupported)
    }
    else if bytes_eq(l, &vec![0x75u8, 0x73u8, 0x65u8, 0x72u8, 0x2Du8, 0x61u8, 0x67u8, 0x65u8, 0x6Eu8, 0x74u8]) {
        Some(SipRFCHeader::UserAgent)
    }
    else if bytes_eq(l, &vec![0x76u8, 0x69u8, 0x61u8]) || (l.len() == 1 && l[0] == 0x76u8) {
        proof { if l@.len() == 1 && l@[0] == 0x76u8 { lemma_single(l@, 0x76u8); } }
        Some(SipRFCHeader::Via)
    }
    else if bytes_eq(l, &vec![0x77u8, 0x61u8, 0x72u8, 0x6Eu8, 0x69u8, 0x6Eu8, 0x67u8]) {
        Some(SipRFCHeader::Warning)
    }
    else if bytes_eq(l, &vec![0x77u8, 0x77u8, 0x77u8, 0x2Du8, 0x61u8, 0x75u8, 0x74u8, 0x68u8, 0x65u8, 0x6Eu8, 0x74u8, 0x69u8, 0x63u8, 0x61u8, 0x74u8, 0x65u8]) {
        Some(SipRFCHeader::WWWAuthenticate)
    }
    else {
        None
    }
}

/// The RFC header that a name stands for, matched without regard to case.
pub open spec fn spec_rfc_header_of(name: Seq<u8>) -> Option<SipRFCHeader> {
    spec_rfc_header_of_lower(spec_lower(name))
}

impl SipRFCHeader {
    /// Looks a header name up, long form or compact alias, ignoring case.
    pub fn from_bytes(name: &[u8]) -> (r: Option<SipRFCHeader>)
        ensures
            r == spec_rfc_header_of(name@),
    {
        let l = ascii_lower(name);
        rfc_header_of_lower(l.as_slice())
    }
}

/// Header names are recognised without regard to case: names that differ only in the case
/// of their letters stand for the same RFC header, or both for none.
pub proof fn lemma_rfc_header_of_ignores_case(a: Seq<u8>, b: Seq<u8>)
    requires
        spec_lower(a) == spec_lower(b),
    ensures
        spec_rfc_header_of(a) == spec_rfc_header_of(b),
{
}

proof fn lemma_single_ne(a: u8, b: u8)
    requires
        a != b,
    ensures
        seq![a] != seq![b],
{
    assert(seq![a][0] == a);
    assert(seq![b][0] == b);
}

/// The compact alias `c` and the long name `Content-Type` stand for the same header.
pub proof fn lemma_compact_content_type()
    ensures
        spec_rfc_header_of(seq![0x63u8]) == Some(SipRFCHeader::ContentType),
        spec_rfc_header_of(seq![0x43u8]) == Some(SipRFCHeader::ContentType),
        spec_rfc_header_of(
            seq![0x43u8, 0x6Fu8, 0x6Eu8, 0x74u8, 0x65u8, 0x6Eu8, 0x74u8, 0x2Du8, 0x54u8, 0x79u8, 0x70u8, 0x65u8],
        ) == Some(SipRFCHeader::ContentType),
{
    lemma_single_ne(0x63u8, 0x75u8);
    lemma_single_ne(0x63u8, 0x69u8);
    lemma_single_ne(0x63u8, 0x6Du8);
    lemma_single_ne(0x63u8, 0x65u8);
    lemma_single_ne(0x63u8, 0x6Cu8);
    assert(spec_lower(seq![0x63u8]) =~= seq![0x63u8]);
    assert(spec_lower(seq![0x43u8]) =~= seq![0x63u8]);
    assert(spec_lower(
        seq![0x43u8, 0x6Fu8, 0x6Eu8, 0x74u8, 0x65u8, 0x6Eu8, 0x74u8, 0x2Du8, 0x54u8, 0x79u8, 0x70u8, 0x65u8],
    ) =~= SipRFCHeader::ContentType.spec_lower_name());
}

} // verus!
