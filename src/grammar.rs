//! The grammar of each RFC header value, and the sub-fields (tags) that it yields.
use vstd::prelude::*;
use crate::bnfcore::ByteClass;
use crate::bytes::{eq_ignore_case, spec_lower};
use crate::errorparse::SipParseError;
use crate::header::{tags_within, SipHeaderTagType, SipUri};
use crate::header_name::SipRFCHeader;
use crate::lexer::{
    byte_find, find_top, quoted_at, run_at, run_end, skip_ws, slice_at, top_find, trim_back,
    ws_back, ws_end,
};
use crate::nom_wrappers::{from_utf8_nom, spec_quoted_string};
use vstd::utf8::valid_utf8;
use crate::sipuri::{find_byte, parse_uri, spec_uri, uri_view, UriView};

verus! {

/// The shapes that header values take.
#[derive(Clone, Copy, Debug, PartialEq, Eq, Structural)]
pub enum Grammar {
    NameAddr,
    Via,
    CSeq,
    CallID,
    Digit,
    Timestamp,
    MediaType,
    Token,
    Disposition,
    Credentials,
    Challenge,
    AuthInfo,
    Date,
    RetryAfter,
    Warning,
    InReplyTo,
    InfoUri,
    MimeVersion,
    Text,
}

pub open spec fn spec_grammar_of(h: SipRFCHeader) -> Grammar {
    match h {
        SipRFCHeader::Accept => Grammar::MediaType,
        SipRFCHeader::AcceptEncoding => Grammar::Token,
        SipRFCHeader::AcceptLanguage => Grammar::Token,
        SipRFCHeader::AlertInfo => Grammar::InfoUri,
        SipRFCHeader::Allow => Grammar::Token,
        SipRFCHeader::AllowEvents => Grammar::Token,
        SipRFCHeader::AuthenticationInfo => Grammar::AuthInfo,
        SipRFCHeader::Authorization => Grammar::Credentials,
        SipRFCHeader::CallID => Grammar::CallID,
        SipRFCHeader::CallInfo => Grammar::InfoUri,
        SipRFCHeader::Contact => Grammar::NameAddr,
        SipRFCHeader::ContentDisposition => Grammar::Disposition,
        SipRFCHeader::ContentEncoding => Grammar::Token,
        SipRFCHeader::ContentLanguage => Grammar::Token,
        SipRFCHeader::ContentLength => Grammar::Digit,
        SipRFCHeader::ContentType => Grammar::MediaType,
        SipRFCHeader::CSeq => Grammar::CSeq,
        SipRFCHeader::Date => Grammar::Date,
        SipRFCHeader::ErrorInfo => Grammar::InfoUri,
        SipRFCHeader::Event => Grammar::Token,
        SipRFCHeader::Expires => Grammar::Digit,
        SipRFCHeader::From => Grammar::NameAddr,
        SipRFCHeader::InReplyTo => Grammar::InReplyTo,
        SipRFCHeader::MaxForwards => Grammar::Digit,
        SipRFCHeader::MimeVersion => Grammar::MimeVersion,
        SipRFCHeader::MinExpires => Grammar::Digit,
        SipRFCHeader::Organization => Grammar::Text,
        SipRFCHeader::Priority => Grammar::Token,
        SipRFCHeader::ProxyAuthenticate => Grammar::Challenge,
        SipRFCHeader::ProxyAuthorization => Grammar::Credentials,
        SipRFCHeader::ProxyRequire => Grammar::Token,
        SipRFCHeader::RecordRoute => Grammar::NameAddr,
        SipRFCHeader::ReferTo => Grammar::NameAddr,
        SipRFCHeader::ReferredBy => Grammar::NameAddr,
        SipRFCHeader::ReplyTo => Grammar::NameAddr,
        SipRFCHeader::Require => Grammar::Token,
        SipRFCHeader::RetryAfter => Grammar::RetryAfter,
        SipRFCHeader::Route => Grammar::NameAddr,
        SipRFCHeader::Server => Grammar::Text,
        SipRFCHeader::Subject => Grammar::Text,
        SipRFCHeader::Supported => Grammar::Token,
        SipRFCHeader::Timestamp => Grammar::Timestamp,
        SipRFCHeader::To => Grammar::NameAddr,
        SipRFCHeader::Unsupported => Grammar::Token,
        SipRFCHeader::UserAgent => Grammar::Text,
        SipRFCHeader::Via => Grammar::Via,
        SipRFCHeader::Warning => Grammar::Warning,
        SipRFCHeader::WWWAuthenticate => Grammar::Challenge,
    }
}

pub fn grammar_of(h: SipRFCHeader) -> (r: Grammar)
    ensures
        r == spec_grammar_of(h),
{
    match h {
        SipRFCHeader::Accept => Grammar::MediaType,
        SipRFCHeader::AcceptEncoding => Grammar::Token,
        SipRFCHeader::AcceptLanguage => Grammar::Token,
        SipRFCHeader::AlertInfo => Grammar::InfoUri,
        SipRFCHeader::Allow => Grammar::Token,
        SipRFCHeader::AllowEvents => Grammar::Token,
        SipRFCHeader::AuthenticationInfo => Grammar::AuthInfo,
        SipRFCHeader::Authorization => Grammar::Credentials,
        SipRFCHeader::CallID => Grammar::CallID,
        SipRFCHeader::CallInfo => Grammar::InfoUri,
        SipRFCHeader::Contact => Grammar::NameAddr,
        SipRFCHeader::ContentDisposition => Grammar::Disposition,
        SipRFCHeader::ContentEncoding => Grammar::Token,
        SipRFCHeader::ContentLanguage => Grammar::Token,
        SipRFCHeader::ContentLength => Grammar::Digit,
        SipRFCHeader::ContentType => Grammar::MediaType,
        SipRFCHeader::CSeq => Grammar::CSeq,
        SipRFCHeader::Date => Grammar::Date,
        SipRFCHeader::ErrorInfo => Grammar::InfoUri,
        SipRFCHeader::Event => Grammar::Token,
        SipRFCHeader::Expires => Grammar::Digit,
        SipRFCHeader::From => Grammar::NameAddr,
        SipRFCHeader::InReplyTo => Grammar::InReplyTo,
        SipRFCHeader::MaxForwards => Grammar::Digit,
        SipRFCHeader::MimeVersion => Grammar::MimeVersion,
        SipRFCHeader::MinExpires => Grammar::Digit,
        SipRFCHeader::Organization => Grammar::Text,
        SipRFCHeader::Priority => Grammar::Token,
        SipRFCHeader::ProxyAuthenticate => Grammar::Challenge,
        SipRFCHeader::ProxyAuthorization => Grammar::Credentials,
        SipRFCHeader::ProxyRequire => Grammar::Token,
        SipRFCHeader::RecordRoute => Grammar::NameAddr,
        SipRFCHeader::ReferTo => Grammar::NameAddr,
        SipRFCHeader::ReferredBy => Grammar::NameAddr,
        SipRFCHeader::ReplyTo => Grammar::NameAddr,
        SipRFCHeader::Require => Grammar::Token,
        SipRFCHeader::RetryAfter => Grammar::RetryAfter,
        SipRFCHeader::Route => Grammar::NameAddr,
        SipRFCHeader::Server => Grammar::Text,
        SipRFCHeader::Subject => Grammar::Text,
        SipRFCHeader::Supported => Grammar::Token,
        SipRFCHeader::Timestamp => Grammar::Timestamp,
        SipRFCHeader::To => Grammar::NameAddr,
        SipRFCHeader::Unsupported => Grammar::Token,
        SipRFCHeader::UserAgent => Grammar::Text,
        SipRFCHeader::Via => Grammar::Via,
        SipRFCHeader::Warning => Grammar::Warning,
        SipRFCHeader::WWWAuthenticate => Grammar::Challenge,
    }
}

/// Headers whose comma-separated entries are separate values.
pub open spec fn spec_is_foldable(h: SipRFCHeader) -> bool {
    match h {
        SipRFCHeader::Accept | SipRFCHeader::AcceptEncoding | SipRFCHeader::AcceptLanguage | SipRFCHeader::AlertInfo | SipRFCHeader::Allow | SipRFCHeader::AllowEvents | SipRFCHeader::CallInfo | SipRFCHeader::Contact | SipRFCHeader::ContentEncoding | SipRFCHeader::ContentLanguage | SipRFCHeader::ErrorInfo | SipRFCHeader::InReplyTo | SipRFCHeader::ProxyRequire | SipRFCHeader::RecordRoute | SipRFCHeader::Require | SipRFCHeader::Route | SipRFCHeader::Supported | SipRFCHeader::Unsupported | SipRFCHeader::Via | SipRFCHeader::Warning => true,
        _ => false,
    }
}

pub fn is_foldable(h: SipRFCHeader) -> (r: bool)
    ensures
        r == spec_is_foldable(h),
{
    match h {
        SipRFCHeader::Accept | SipRFCHeader::AcceptEncoding | SipRFCHeader::AcceptLanguage | SipRFCHeader::AlertInfo | SipRFCHeader::Allow | SipRFCHeader::AllowEvents | SipRFCHeader::CallInfo | SipRFCHeader::Contact | SipRFCHeader::ContentEncoding | SipRFCHeader::ContentLanguage | SipRFCHeader::ErrorInfo | SipRFCHeader::InReplyTo | SipRFCHeader::ProxyRequire | SipRFCHeader::RecordRoute | SipRFCHeader::Require | SipRFCHeader::Route | SipRFCHeader::Supported | SipRFCHeader::Unsupported | SipRFCHeader::Via | SipRFCHeader::Warning => true,
        _ => false,
    }
}

/// The tag under which an authentication parameter named `n` is kept, ignoring case.
pub open spec fn spec_auth_tag(n: Seq<u8>, challenge: bool) -> Option<SipHeaderTagType> {
    if spec_lower(n) == spec_lower(seq![0x75u8, 0x73u8, 0x65u8, 0x72u8, 0x6Eu8, 0x61u8, 0x6Du8, 0x65u8]) {
        Some(SipHeaderTagType::Username)
    }
    else if spec_lower(n) == spec_lower(seq![0x72u8, 0x65u8, 0x61u8, 0x6Cu8, 0x6Du8]) {
        Some(SipHeaderTagType::Realm)
    }
    else if spec_lower(n) == spec_lower(seq![0x6Eu8, 0x6Fu8, 0x6Eu8, 0x63u8, 0x65u8]) {
        Some(SipHeaderTagType::Nonce)
    }
    else if spec_lower(n) == spec_lower(seq![0x75u8, 0x72u8, 0x69u8]) {
        Some(SipHeaderTagType::URI)
    }
    else if spec_lower(n) == spec_lower(seq![0x72u8, 0x65u8, 0x73u8, 0x70u8, 0x6Fu8, 0x6Eu8, 0x73u8, 0x65u8]) {
        Some(SipHeaderTagType::Dresponse)
    }
    else if spec_lower(n) == spec_lower(seq![0x61u8, 0x6Cu8, 0x67u8, 0x6Fu8, 0x72u8, 0x69u8, 0x74u8, 0x68u8, 0x6Du8]) {
        Some(SipHeaderTagType::Algorithm)
    }
    else if spec_lower(n) == spec_lower(seq![0x63u8, 0x6Eu8, 0x6Fu8, 0x6Eu8, 0x63u8, 0x65u8]) {
        Some(SipHeaderTagType::Cnonce)
    }
    else if spec_lower(n) == spec_lower(seq![0x6Fu8, 0x70u8, 0x61u8, 0x71u8, 0x75u8, 0x65u8]) {
        Some(SipHeaderTagType::Opaque)
    }
    else if spec_lower(n) == spec_lower(seq![0x6Eu8, 0x63u8]) {
        Some(SipHeaderTagType::Nc)
    }
    else if spec_lower(n) == spec_lower(seq![0x64u8, 0x6Fu8, 0x6Du8, 0x61u8, 0x69u8, 0x6Eu8]) {
        Some(SipHeaderTagType::Domain)
    }
    else if spec_lower(n) == spec_lower(seq![0x73u8, 0x74u8, 0x61u8, 0x6Cu8, 0x65u8]) {
        Some(SipHeaderTagType::Stale)
    }
    else if spec_lower(n) == spec_lower(seq![0x6Eu8, 0x65u8, 0x78u8, 0x74u8, 0x6Eu8, 0x6Fu8, 0x6Eu8, 0x63u8, 0x65u8]) {
        Some(SipHeaderTagType::NextNonce)
    }
    else if spec_lower(n) == spec_lower(seq![0x72u8, 0x73u8, 0x70u8, 0x61u8, 0x75u8, 0x74u8, 0x68u8]) {
        Some(SipHeaderTagType::Rspauth)
    }
    else if spec_lower(n) == spec_lower(seq![0x71u8, 0x6Fu8, 0x70u8]) {
        if challenge {
            Some(SipHeaderTagType::QopValue)
        } else {
            Some(SipHeaderTagType::Qop)
        }
    }
    else {
        None
    }
}

/// The tag under which an authentication parameter is kept; `qop` names the offered options
/// in a challenge and the chosen one elsewhere.
fn auth_tag(name: &[u8], challenge: bool) -> (r: Option<SipHeaderTagType>)
    ensures
        r == spec_auth_tag(name@, challenge),
{
    if eq_ignore_case(name, vec![0x75u8, 0x73u8, 0x65u8, 0x72u8, 0x6Eu8, 0x61u8, 0x6Du8, 0x65u8].as_slice()) {
        Some(SipHeaderTagType::Username)
    }
    else if eq_ignore_case(name, vec![0x72u8, 0x65u8, 0x61u8, 0x6Cu8, 0x6Du8].as_slice()) {
        Some(SipHeaderTagType::Realm)
    }
    else if eq_ignore_case(name, vec![0x6Eu8, 0x6Fu8, 0x6Eu8, 0x63u8, 0x65u8].as_slice()) {
        Some(SipHeaderTagType::Nonce)
    }
    else if eq_ignore_case(name, vec![0x75u8, 0x72u8, 0x69u8].as_slice()) {
        Some(SipHeaderTagType::URI)
    }
    else if eq_ignore_case(name, vec![0x72u8, 0x65u8, 0x73u8, 0x70u8, 0x6Fu8, 0x6Eu8, 0x73u8, 0x65u8].as_slice()) {
        Some(SipHeaderTagType::Dresponse)
    }
    else if eq_ignore_case(name, vec![0x61u8, 0x6Cu8, 0x67u8, 0x6Fu8, 0x72u8, 0x69u8, 0x74u8, 0x68u8, 0x6Du8].as_slice()) {
        Some(SipHeaderTagType::Algorithm)
    }
    else if eq_ignore_case(name, vec![0x63u8, 0x6Eu8, 0x6Fu8, 0x6Eu8, 0x63u8, 0x65u8].as_slice()) {
        Some(SipHeaderTagType::Cnonce)
    }
    else if eq_ignore_case(name, vec![0x6Fu8, 0x70u8, 0x61u8, 0x71u8, 0x75u8, 0x65u8].as_slice()) {
        Some(SipHeaderTagType::Opaque)
    }
    else if eq_ignore_case(name, vec![0x6Eu8, 0x63u8].as_slice()) {
        Some(SipHeaderTagType::Nc)
    }
    else if eq_ignore_case(name, vec![0x64u8, 0x6Fu8, 0x6Du8, 0x61u8, 0x69u8, 0x6Eu8].as_slice()) {
        Some(SipHeaderTagType::Domain)
    }
    else if eq_ignore_case(name, vec![0x73u8, 0x74u8, 0x61u8, 0x6Cu8, 0x65u8].as_slice()) {
        Some(SipHeaderTagType::Stale)
    }
    else if eq_ignore_case(name, vec![0x6Eu8, 0x65u8, 0x78u8, 0x74u8, 0x6Eu8, 0x6Fu8, 0x6Eu8, 0x63u8, 0x65u8].as_slice()) {
        Some(SipHeaderTagType::NextNonce)
    }
    else if eq_ignore_case(name, vec![0x72u8, 0x73u8, 0x70u8, 0x61u8, 0x75u8, 0x74u8, 0x68u8].as_slice()) {
        Some(SipHeaderTagType::Rspauth)
    }
    else if eq_ignore_case(name, vec![0x71u8, 0x6Fu8, 0x70u8].as_slice()) {
        if challenge {
            Some(SipHeaderTagType::QopValue)
        } else {
            Some(SipHeaderTagType::Qop)
        }
    }
    else {
        None
    }
}

/// Grammars whose value may be followed by `;` parameters at header level.
pub open spec fn spec_takes_params(g: Grammar) -> bool {
    match g {
        Grammar::NameAddr | Grammar::Via | Grammar::MediaType | Grammar::Token
        | Grammar::Disposition | Grammar::RetryAfter | Grammar::InfoUri => true,
        _ => false,
    }
}

pub fn takes_params(g: Grammar) -> (r: bool)
    ensures
        r == spec_takes_params(g),
{
    match g {
        Grammar::NameAddr | Grammar::Via | Grammar::MediaType | Grammar::Token
        | Grammar::Disposition | Grammar::RetryAfter | Grammar::InfoUri => true,
        _ => false,
    }
}

pub type Tags<'a> = Vec<(SipHeaderTagType, &'a [u8])>;


/// The tags as keys and octet sequences.
pub open spec fn tag_views(t: Seq<(SipHeaderTagType, &[u8])>) -> Seq<(SipHeaderTagType, Seq<u8>)> {
    t.map_values(|x: (SipHeaderTagType, &[u8])| (x.0, x.1@))
}

pub open spec fn fmt_err(h: SipRFCHeader) -> Result<Seq<(SipHeaderTagType, Seq<u8>)>, SipParseError> {
    Err(SipParseError::HeaderFormat(h))
}

/// What a grammar function promises: on success it appended `t` to the tags, on failure it
/// reported the error of the spec.
pub open spec fn appended(
    spec_r: Result<Seq<(SipHeaderTagType, Seq<u8>)>, SipParseError>,
    r: Result<(), SipParseError>,
    before: Seq<(SipHeaderTagType, &[u8])>,
    after: Seq<(SipHeaderTagType, &[u8])>,
) -> bool {
    match spec_r {
        Ok(t) => r is Ok && tag_views(after) =~= tag_views(before) + t,
        Err(e) => r == Err::<(), SipParseError>(e),
    }
}

/// The parts of a name-addr: the display name tag (the interior of a leading quoted string,
/// or the trimmed text before a `<` read at top level; none for a bare URI) and the region of
/// the URI (inside the angle brackets, or the whole value).
pub open spec fn spec_name_addr_parts(s: Seq<u8>, a: int, b: int) -> Result<
    (Seq<(SipHeaderTagType, Seq<u8>)>, int, int),
    SipParseError,
> {
    if a < b && s[a] == 0x22u8 {
        match spec_quoted_string(s.subrange(a, b)) {
            Err(x) => Err(x),
            Ok((rest, q)) => {
                let lt = ws_end(s, b - rest.len(), b);
                let gt = byte_find(s, lt + 1, b, 0x3Eu8);
                if lt == b || s[lt] != 0x3Cu8 {
                    Err(SipParseError::ExpectedLiteral(0x3Cu8))
                } else if gt == b {
                    Err(SipParseError::ExpectedLiteral(0x3Eu8))
                } else {
                    Ok((seq![(SipHeaderTagType::DisplayName, q)], lt + 1, gt))
                }
            },
        }
    } else {
        let lt = top_find(s, a, a, b, 0x3Cu8);
        let de = ws_back(s, a, lt);
        let gt = byte_find(s, lt + 1, b, 0x3Eu8);
        if lt == b {
            Ok((Seq::empty(), a, b))
        } else if gt == b {
            Err(SipParseError::ExpectedLiteral(0x3Eu8))
        } else if a < de {
            Ok((seq![(SipHeaderTagType::DisplayName, s.subrange(a, de))], lt + 1, gt))
        } else {
            Ok((Seq::empty(), lt + 1, gt))
        }
    }
}

/// A name-addr value: its tags and its URI.
pub open spec fn spec_name_addr(s: Seq<u8>, a: int, b: int) -> Result<
    (Seq<(SipHeaderTagType, Seq<u8>)>, UriView),
    SipParseError,
> {
    match spec_name_addr_parts(s, a, b) {
        Err(x) => Err(x),
        Ok((t, x, y)) => match spec_uri(s, x, y) {
            Err(e) => Err(e),
            Ok(v) => Ok((t, v)),
        },
    }
}

pub open spec fn prefixed(
    acc: Seq<(SipHeaderTagType, Seq<u8>)>,
    r: Result<Seq<(SipHeaderTagType, Seq<u8>)>, SipParseError>,
) -> Result<Seq<(SipHeaderTagType, Seq<u8>)>, SipParseError> {
    match r {
        Ok(t) => Ok(acc + t),
        Err(e) => Err(e),
    }
}

pub open spec fn opt_tag(t: Option<SipHeaderTagType>, v: Seq<u8>) -> Seq<(SipHeaderTagType, Seq<u8>)> {
    match t {
        Some(k) => seq![(k, v)],
        None => Seq::empty(),
    }
}

/// One `name SWS "=" SWS ( quoted-string / token )` at `p`, with the check that a comma or the
/// end follows: the tag it yields (when the name is known) and where the scan goes on.
pub open spec fn spec_auth_pair(h: SipRFCHeader, s: Seq<u8>, p: int, b: int, challenge: bool) -> Result<(Seq<(SipHeaderTagType, Seq<u8>)>, int), SipParseError> {
    let ne = run_end(s, ByteClass::TokenChar, p, b);
    let d = ws_end(s, ne, b);
    let vs = ws_end(s, d + 1, b);
    let tag = spec_auth_tag(s.subrange(p, ne), challenge);
    if ne == p || !(d < b && s[d] == 0x3Du8) {
        Err(SipParseError::HeaderFormat(h))
    } else if vs < b && s[vs] == 0x22u8 {
        match spec_quoted_string(s.subrange(vs, b)) {
            Err(x) => Err(x),
            Ok((rest, q)) => {
                let ve = b - rest.len();
                let nk = if ve > p { ve } else { p + 1 };
                let after = ws_end(s, nk, b);
                if after < b && s[after] != 0x2Cu8 {
                    Err(SipParseError::HeaderFormat(h))
                } else {
                    Ok((opt_tag(tag, q), nk))
                }
            },
        }
    } else {
        let ve = run_end(s, ByteClass::ParamChar, vs, b);
        let nk = if ve > p { ve } else { p + 1 };
        let after = ws_end(s, nk, b);
        if after < b && s[after] != 0x2Cu8 {
            Err(SipParseError::HeaderFormat(h))
        } else {
            Ok((opt_tag(tag, s.subrange(vs, ve)), nk))
        }
    }
}

/// `*( SWS "," ) [ auth-param ... ]` from `k`: each known parameter name yields its tag,
/// holding the value (a quoted string's interior).
pub open spec fn spec_auth_pairs(h: SipRFCHeader, s: Seq<u8>, k: int, b: int, challenge: bool) -> Result<Seq<(SipHeaderTagType, Seq<u8>)>, SipParseError>
    decreases b - k,
{
    if k < 0 || k >= b {
        Ok(Seq::empty())
    } else {
        let p = ws_end(s, k, b);
        if p == b {
            Ok(Seq::empty())
        } else if s[p] == 0x2Cu8 {
            if k < p + 1 <= b {
                spec_auth_pairs(h, s, p + 1, b, challenge)
            } else {
                Ok(Seq::empty())
            }
        } else {
            match spec_auth_pair(h, s, p, b, challenge) {
                Err(x) => Err(x),
                Ok((pre, nk)) => if k < nk <= b {
                    prefixed(pre, spec_auth_pairs(h, s, nk, b, challenge))
                } else {
                    Ok(Seq::empty())
                },
            }
        }
    }
}

/// An authentication value: with `schema`, a leading scheme token (tag AuthSchema), then the
/// parameter list.
pub open spec fn spec_auth(h: SipRFCHeader, s: Seq<u8>, a: int, b: int, schema: bool, challenge: bool) -> Result<Seq<(SipHeaderTagType, Seq<u8>)>, SipParseError> {
    let e = run_end(s, ByteClass::TokenChar, a, b);
    if !schema {
        spec_auth_pairs(h, s, a, b, challenge)
    } else if e == a {
        fmt_err(h)
    } else {
        prefixed(seq![(SipHeaderTagType::AuthSchema, s.subrange(a, e))], spec_auth_pairs(h, s, e, b, challenge))
    }
}

/// `1*DIGIT LWS Method`: tags Number and Method.
pub open spec fn spec_cseq(h: SipRFCHeader, s: Seq<u8>, a: int, b: int) -> Result<Seq<(SipHeaderTagType, Seq<u8>)>, SipParseError> {
    let e = run_end(s, ByteClass::Digit, a, b);
    let k = ws_end(s, e, b);
    let m = run_end(s, ByteClass::TokenChar, k, b);
    if e == a || k == e || m == k || ws_end(s, m, b) != b {
        fmt_err(h)
    } else {
        Ok(seq![(SipHeaderTagType::Number, s.subrange(a, e)), (SipHeaderTagType::Method, s.subrange(k, m))])
    }
}

/// `1*DIGIT "." 1*DIGIT`: tags Major and Minor.
pub open spec fn spec_mime_version(h: SipRFCHeader, s: Seq<u8>, a: int, b: int) -> Result<Seq<(SipHeaderTagType, Seq<u8>)>, SipParseError> {
    let e = run_end(s, ByteClass::Digit, a, b);
    let f = run_end(s, ByteClass::Digit, e + 1, b);
    if e == a || !(e < b && s[e] == 0x2Eu8) || f == e + 1 || ws_end(s, f, b) != b {
        fmt_err(h)
    } else {
        Ok(seq![(SipHeaderTagType::Major, s.subrange(a, e)), (SipHeaderTagType::Minor, s.subrange(e + 1, f))])
    }
}

/// `type SWS "/" SWS subtype`: tags Type and Subtype.
pub open spec fn spec_media_type(h: SipRFCHeader, s: Seq<u8>, a: int, b: int) -> Result<Seq<(SipHeaderTagType, Seq<u8>)>, SipParseError> {
    let e = run_end(s, ByteClass::TokenChar, a, b);
    let d = ws_end(s, e, b);
    let k = ws_end(s, d + 1, b);
    let f = run_end(s, ByteClass::TokenChar, k, b);
    if e == a || !(d < b && s[d] == 0x2Fu8) || f == k || ws_end(s, f, b) != b {
        fmt_err(h)
    } else {
        Ok(seq![(SipHeaderTagType::Type, s.subrange(a, e)), (SipHeaderTagType::Subtype, s.subrange(k, f))])
    }
}

/// The end of `1*DIGIT [ "." *DIGIT ]` from `k`, or `k` when no digit is there.
pub open spec fn decimal_end(s: Seq<u8>, k: int, b: int) -> int {
    let e = run_end(s, ByteClass::Digit, k, b);
    if e == k {
        k
    } else if e < b && s[e] == 0x2Eu8 {
        run_end(s, ByteClass::Digit, e + 1, b)
    } else {
        e
    }
}

/// `decimal [ LWS decimal ]`: tags TimeVal and, when given, Delay.
pub open spec fn spec_timestamp(h: SipRFCHeader, s: Seq<u8>, a: int, b: int) -> Result<Seq<(SipHeaderTagType, Seq<u8>)>, SipParseError> {
    let t = decimal_end(s, a, b);
    let k = ws_end(s, t, b);
    let d = decimal_end(s, k, b);
    if t == a {
        fmt_err(h)
    } else if k == b {
        Ok(seq![(SipHeaderTagType::TimeVal, s.subrange(a, t))])
    } else if d == k || ws_end(s, d, b) != b {
        fmt_err(h)
    } else {
        Ok(seq![(SipHeaderTagType::TimeVal, s.subrange(a, t)), (SipHeaderTagType::Delay, s.subrange(k, d))])
    }
}

/// `delta-seconds [ "(" comment ")" ]`: tags Seconds and, when given, Comment.
pub open spec fn spec_retry_after(h: SipRFCHeader, s: Seq<u8>, a: int, b: int) -> Result<Seq<(SipHeaderTagType, Seq<u8>)>, SipParseError> {
    let e = run_end(s, ByteClass::Digit, a, b);
    let k = ws_end(s, e, b);
    let close = byte_find(s, k + 1, b, 0x29u8);
    if e == a {
        fmt_err(h)
    } else if k < b && s[k] == 0x28u8 {
        if close == b {
            Err(SipParseError::ExpectedLiteral(0x29u8))
        } else if ws_end(s, close + 1, b) != b {
            fmt_err(h)
        } else {
            Ok(seq![(SipHeaderTagType::Seconds, s.subrange(a, e)), (SipHeaderTagType::Comment, s.subrange(k + 1, close))])
        }
    } else if ws_end(s, k, b) != b {
        fmt_err(h)
    } else {
        Ok(seq![(SipHeaderTagType::Seconds, s.subrange(a, e))])
    }
}

/// `word [ "@" word ]`: with `tagged`, tags ID and, when given, Host.
pub open spec fn spec_call_id(h: SipRFCHeader, s: Seq<u8>, a: int, b: int, tagged: bool) -> Result<Seq<(SipHeaderTagType, Seq<u8>)>, SipParseError> {
    let e = run_end(s, ByteClass::Word, a, b);
    let f = run_end(s, ByteClass::Word, e + 1, b);
    let id = if tagged { seq![(SipHeaderTagType::ID, s.subrange(a, e))] } else { Seq::empty() };
    if e == a {
        fmt_err(h)
    } else if e < b && s[e] == 0x40u8 {
        if f == e + 1 || ws_end(s, f, b) != b {
            fmt_err(h)
        } else if tagged {
            Ok(id.push((SipHeaderTagType::Host, s.subrange(e + 1, f))))
        } else {
            Ok(id)
        }
    } else if ws_end(s, e, b) != b {
        fmt_err(h)
    } else {
        Ok(id)
    }
}

/// `"<" absoluteURI ">"`: tag AbsoluteURI.
pub open spec fn spec_info_uri(h: SipRFCHeader, s: Seq<u8>, a: int, b: int) -> Result<Seq<(SipHeaderTagType, Seq<u8>)>, SipParseError> {
    let gt = byte_find(s, a + 1, b, 0x3Eu8);
    if !(a < b && s[a] == 0x3Cu8) || gt == b || gt == a + 1 || ws_end(s, gt + 1, b) != b {
        fmt_err(h)
    } else {
        Ok(seq![(SipHeaderTagType::AbsoluteURI, s.subrange(a + 1, gt))])
    }
}

/// The end of the host of a sent-by at `k`: a bracketed IPv6 reference or a host name;
/// `k` when there is none.
pub open spec fn host_end(s: Seq<u8>, k: int, b: int) -> int {
    if k < b && s[k] == 0x5Bu8 {
        let close = byte_find(s, k, b, 0x5Du8);
        if close == b {
            k
        } else {
            close + 1
        }
    } else {
        run_end(s, ByteClass::Host, k, b)
    }
}

/// `name SWS "/" SWS version SWS "/" SWS transport LWS host [ ":" port ]`: tags ProtocolName,
/// ProtocolVersion, ProtocolTransport, Host and, when given, Port.
pub open spec fn spec_via(h: SipRFCHeader, s: Seq<u8>, a: int, b: int) -> Result<Seq<(SipHeaderTagType, Seq<u8>)>, SipParseError> {
    let e1 = run_end(s, ByteClass::TokenChar, a, b);
    let d1 = ws_end(s, e1, b);
    let k1 = ws_end(s, d1 + 1, b);
    let e2 = run_end(s, ByteClass::TokenChar, k1, b);
    let d2 = ws_end(s, e2, b);
    let k2 = ws_end(s, d2 + 1, b);
    let e3 = run_end(s, ByteClass::TokenChar, k2, b);
    let k = ws_end(s, e3, b);
    let he = host_end(s, k, b);
    let pe = run_end(s, ByteClass::Digit, he + 1, b);
    let t = seq![
        (SipHeaderTagType::ProtocolName, s.subrange(a, e1)),
        (SipHeaderTagType::ProtocolVersion, s.subrange(k1, e2)),
        (SipHeaderTagType::ProtocolTransport, s.subrange(k2, e3)),
        (SipHeaderTagType::Host, s.subrange(k, he)),
    ];
    if e1 == a || !(d1 < b && s[d1] == 0x2Fu8) || e2 == k1 || !(d2 < b && s[d2] == 0x2Fu8) || e3
        == k2 || k == e3 || he == k {
        fmt_err(h)
    } else if he < b && s[he] == 0x3Au8 {
        if pe == he + 1 || ws_end(s, pe, b) != b {
            fmt_err(h)
        } else {
            Ok(t.push((SipHeaderTagType::Port, s.subrange(he + 1, pe))))
        }
    } else if ws_end(s, he, b) != b {
        fmt_err(h)
    } else {
        Ok(t)
    }
}

/// `warn-code LWS warn-agent quoted-string`: tags WarnCode, WarnAgent and WarnText (the
/// interior of the quoted string).
pub open spec fn spec_warning(h: SipRFCHeader, s: Seq<u8>, a: int, b: int) -> Result<Seq<(SipHeaderTagType, Seq<u8>)>, SipParseError> {
    let e = run_end(s, ByteClass::Digit, a, b);
    let k = ws_end(s, e, b);
    let g = run_end(s, ByteClass::ParamChar, k, b);
    if e - a != 3 || g == k {
        fmt_err(h)
    } else {
        match spec_quoted_string(s.subrange(g, b)) {
            Err(x) => Err(x),
            Ok((rest, q)) => if ws_end(s, b - rest.len(), b) != b {
                fmt_err(h)
            } else {
                Ok(seq![
                    (SipHeaderTagType::WarnCode, s.subrange(a, e)),
                    (SipHeaderTagType::WarnAgent, s.subrange(k, g)),
                    (SipHeaderTagType::WarnText, q),
                ])
            },
        }
    }
}

fn push_tag<'a>(tags: &mut Tags<'a>, k: SipHeaderTagType, s: &'a [u8], x: usize, y: usize)
    requires
        x <= y <= s@.len(),
        tags_within(old(tags)@, s@),
    ensures
        tags_within(final(tags)@, s@),
        final(tags)@.len() == old(tags)@.len() + 1,
        tag_views(final(tags)@) == tag_views(old(tags)@).push((k, s@.subrange(x as int, y as int))),
{
    let v = slice_at(s, x, y);
    tags.push((k, v));
    assert(tag_views(tags@) =~= tag_views(old(tags)@).push((k, s@.subrange(x as int, y as int))));
}

/// A non-empty run of `cls` from `k`; its end.
fn need_run(h: SipRFCHeader, s: &[u8], k: usize, b: usize, cls: ByteClass) -> (r: Result<usize, SipParseError>)
    requires
        k <= b <= s@.len(),
    ensures
        r is Err <==> run_end(s@, cls, k as int, b as int) == k,
        r matches Ok(e) ==> k < e <= b && e == run_end(s@, cls, k as int, b as int),
        r matches Err(x) ==> x == SipParseError::HeaderFormat(h),
{
    let e = run_at(s, k, b, cls);
    if e == k {
        Err(SipParseError::HeaderFormat(h))
    } else {
        Ok(e)
    }
}

/// `1*DIGIT [ "." *DIGIT ]`; its end.
fn decimal(h: SipRFCHeader, s: &[u8], k: usize, b: usize) -> (r: Result<usize, SipParseError>)
    requires
        k <= b <= s@.len(),
    ensures
        r is Err <==> decimal_end(s@, k as int, b as int) == k,
        r matches Ok(e) ==> k < e <= b && e == decimal_end(s@, k as int, b as int),
        r matches Err(x) ==> x == SipParseError::HeaderFormat(h),
{
    let e = need_run(h, s, k, b, ByteClass::Digit)?;
    if e < b && s[e] == 0x2Eu8 {
        Ok(run_at(s, e + 1, b, ByteClass::Digit))
    } else {
        Ok(e)
    }
}

fn expect(h: SipRFCHeader, s: &[u8], k: usize, b: usize, c: u8) -> (r: Result<usize, SipParseError>)
    requires
        k <= b <= s@.len(),
    ensures
        r is Ok <==> (k < b && s@[k as int] == c),
        r matches Ok(e) ==> e == k + 1 && e <= b,
        r matches Err(x) ==> x == SipParseError::HeaderFormat(h),
{
    if k < b && s[k] == c {
        Ok(k + 1)
    } else {
        Err(SipParseError::HeaderFormat(h))
    }
}

fn expect_end(h: SipRFCHeader, s: &[u8], k: usize, b: usize) -> (r: Result<(), SipParseError>)
    requires
        k <= b <= s@.len(),
    ensures
        r is Ok <==> ws_end(s@, k as int, b as int) == b,
        r matches Err(x) ==> x == SipParseError::HeaderFormat(h),
{
    if skip_ws(s, k, b) == b {
        Ok(())
    } else {
        Err(SipParseError::HeaderFormat(h))
    }
}

/// `[ display-name ] "<" URI ">"` or a bare URI; pushes `DisplayName` when one is written.
fn name_addr<'a>(s: &'a [u8], a: usize, b: usize, tags: &mut Tags<'a>) -> (r: Result<SipUri<'a>, SipParseError>)
    requires
        a <= b <= s@.len(),
        tags_within(old(tags)@, s@),
    ensures
        tags_within(final(tags)@, s@),
        r matches Ok(u) ==> u.within(s@),
        match spec_name_addr(s@, a as int, b as int) {
            Ok((t, v)) => r matches Ok(u) && uri_view(u) == v && tag_views(final(tags)@) =~= tag_views(old(tags)@) + t,
            Err(x) => r == Err::<SipUri, SipParseError>(x),
        },
{
    let lt;
    let mut display: Option<&'a [u8]> = None;
    if a < b && s[a] == 0x22u8 {
        let (e, q) = quoted_at(s, a, b)?;
        lt = skip_ws(s, e, b);
        if lt == b || s[lt] != 0x3Cu8 {
            return Err(SipParseError::ExpectedLiteral(0x3Cu8));
        }
        display = Some(q);
    } else {
        lt = find_top(s, a, b, 0x3Cu8);
        if lt < b {
            let de = trim_back(s, a, lt);
            if a < de {
                display = Some(slice_at(s, a, de));
            }
        }
    }
    if lt < b {
        let gt = find_byte(s, lt + 1, b, 0x3Eu8);
        if gt == b {
            return Err(SipParseError::ExpectedLiteral(0x3Eu8));
        }
        let u = parse_uri(s, lt + 1, gt)?;
        if let Some(d) = display {
            let ghost before = tags@;
            tags.push((SipHeaderTagType::DisplayName, d));
            assert(tag_views(tags@) =~= tag_views(before).push((SipHeaderTagType::DisplayName, d@)));
        }
        Ok(u)
    } else {
        parse_uri(s, a, b)
    }
}

/// `protocol-name "/" protocol-version "/" transport LWS host [ ":" port ]`
fn via<'a>(h: SipRFCHeader, s: &'a [u8], a: usize, b: usize, tags: &mut Tags<'a>) -> (r: Result<(), SipParseError>)
    requires
        a <= b <= s@.len(),
        tags_within(old(tags)@, s@),
    ensures
        tags_within(final(tags)@, s@),
        appended(spec_via(h, s@, a as int, b as int), r, old(tags)@, final(tags)@),
{
    let e1 = need_run(h, s, a, b, ByteClass::TokenChar)?;
    let k1 = skip_ws(s, expect(h, s, skip_ws(s, e1, b), b, 0x2Fu8)?, b);
    let e2 = need_run(h, s, k1, b, ByteClass::TokenChar)?;
    let k2 = skip_ws(s, expect(h, s, skip_ws(s, e2, b), b, 0x2Fu8)?, b);
    let e3 = need_run(h, s, k2, b, ByteClass::TokenChar)?;
    let k = skip_ws(s, e3, b);
    if k == e3 {
        return Err(SipParseError::HeaderFormat(h));
    }
    let he = if k < b && s[k] == 0x5Bu8 {
        let close = find_byte(s, k, b, 0x5Du8);
        if close == b {
            return Err(SipParseError::HeaderFormat(h));
        }
        close + 1
    } else {
        need_run(h, s, k, b, ByteClass::Host)?
    };
    let port = if he < b && s[he] == 0x3Au8 {
        let pe = need_run(h, s, he + 1, b, ByteClass::Digit)?;
        expect_end(h, s, pe, b)?;
        Some(pe)
    } else {
        expect_end(h, s, he, b)?;
        None
    };
    push_tag(tags, SipHeaderTagType::ProtocolName, s, a, e1);
    push_tag(tags, SipHeaderTagType::ProtocolVersion, s, k1, e2);
    push_tag(tags, SipHeaderTagType::ProtocolTransport, s, k2, e3);
    push_tag(tags, SipHeaderTagType::Host, s, k, he);
    if let Some(pe) = port {
        push_tag(tags, SipHeaderTagType::Port, s, he + 1, pe);
    }
    Ok(())
}

/// `1*DIGIT LWS Method`
fn cseq<'a>(h: SipRFCHeader, s: &'a [u8], a: usize, b: usize, tags: &mut Tags<'a>) -> (r: Result<(), SipParseError>)
    requires
        a <= b <= s@.len(),
        tags_within(old(tags)@, s@),
    ensures
        tags_within(final(tags)@, s@),
        appended(spec_cseq(h, s@, a as int, b as int), r, old(tags)@, final(tags)@),
{
    let e = need_run(h, s, a, b, ByteClass::Digit)?;
    let k = skip_ws(s, e, b);
    if k == e {
        return Err(SipParseError::HeaderFormat(h));
    }
    let m = need_run(h, s, k, b, ByteClass::TokenChar)?;
    expect_end(h, s, m, b)?;
    push_tag(tags, SipHeaderTagType::Number, s, a, e);
    push_tag(tags, SipHeaderTagType::Method, s, k, m);
    Ok(())
}

/// `1*DIGIT`
fn digits(h: SipRFCHeader, s: &[u8], a: usize, b: usize) -> (r: Result<(), SipParseError>)
    requires
        a <= b <= s@.len(),
    ensures
        r is Ok <==> (a < b && forall|k: int| a <= k < b ==> crate::bnfcore::spec_is_digit(
            #[trigger] s@[k],
        )),
        r matches Err(x) ==> x == SipParseError::HeaderFormat(h),
{
    let e = run_at(s, a, b, ByteClass::Digit);
    if e == a || e != b {
        Err(SipParseError::HeaderFormat(h))
    } else {
        Ok(())
    }
}

/// `1*DIGIT [ "." *DIGIT ] [ LWS delay ]`
fn timestamp<'a>(h: SipRFCHeader, s: &'a [u8], a: usize, b: usize, tags: &mut Tags<'a>) -> (r: Result<(), SipParseError>)
    requires
        a <= b <= s@.len(),
        tags_within(old(tags)@, s@),
    ensures
        tags_within(final(tags)@, s@),
        appended(spec_timestamp(h, s@, a as int, b as int), r, old(tags)@, final(tags)@),
{
    let t = decimal(h, s, a, b)?;
    let k = skip_ws(s, t, b);
    if k < b {
        let d = decimal(h, s, k, b)?;
        expect_end(h, s, d, b)?;
        push_tag(tags, SipHeaderTagType::TimeVal, s, a, t);
        push_tag(tags, SipHeaderTagType::Delay, s, k, d);
    } else {
        push_tag(tags, SipHeaderTagType::TimeVal, s, a, t);
    }
    Ok(())
}

/// `1*DIGIT "." 1*DIGIT`
fn mime_version<'a>(h: SipRFCHeader, s: &'a [u8], a: usize, b: usize, tags: &mut Tags<'a>) -> (r: Result<(), SipParseError>)
    requires
        a <= b <= s@.len(),
        tags_within(old(tags)@, s@),
    ensures
        tags_within(final(tags)@, s@),
        appended(spec_mime_version(h, s@, a as int, b as int), r, old(tags)@, final(tags)@),
{
    let e = need_run(h, s, a, b, ByteClass::Digit)?;
    let k = expect(h, s, e, b, 0x2Eu8)?;
    let f = need_run(h, s, k, b, ByteClass::Digit)?;
    expect_end(h, s, f, b)?;
    push_tag(tags, SipHeaderTagType::Major, s, a, e);
    push_tag(tags, SipHeaderTagType::Minor, s, k, f);
    Ok(())
}

/// `type "/" subtype`
fn media_type<'a>(h: SipRFCHeader, s: &'a [u8], a: usize, b: usize, tags: &mut Tags<'a>) -> (r: Result<(), SipParseError>)
    requires
        a <= b <= s@.len(),
        tags_within(old(tags)@, s@),
    ensures
        tags_within(final(tags)@, s@),
        appended(spec_media_type(h, s@, a as int, b as int), r, old(tags)@, final(tags)@),
{
    let e = need_run(h, s, a, b, ByteClass::TokenChar)?;
    let d = skip_ws(s, e, b);
    let k = skip_ws(s, expect(h, s, d, b, 0x2Fu8)?, b);
    let f = need_run(h, s, k, b, ByteClass::TokenChar)?;
    expect_end(h, s, f, b)?;
    push_tag(tags, SipHeaderTagType::Type, s, a, e);
    push_tag(tags, SipHeaderTagType::Subtype, s, k, f);
    Ok(())
}

/// `warn-code SP warn-agent SP warn-text`, the text a quoted string
fn warning<'a>(h: SipRFCHeader, s: &'a [u8], a: usize, b: usize, tags: &mut Tags<'a>) -> (r: Result<(), SipParseError>)
    requires
        a <= b <= s@.len(),
        tags_within(old(tags)@, s@),
    ensures
        tags_within(final(tags)@, s@),
        appended(spec_warning(h, s@, a as int, b as int), r, old(tags)@, final(tags)@),
{
    let e = run_at(s, a, b, ByteClass::Digit);
    if e - a != 3 {
        return Err(SipParseError::HeaderFormat(h));
    }
    let k = skip_ws(s, e, b);
    let g = need_run(h, s, k, b, ByteClass::ParamChar)?;
    let (t, q) = quoted_at(s, g, b)?;
    expect_end(h, s, t, b)?;
    push_tag(tags, SipHeaderTagType::WarnCode, s, a, e);
    push_tag(tags, SipHeaderTagType::WarnAgent, s, k, g);
    let ghost before = tags@;
    tags.push((SipHeaderTagType::WarnText, q));
    assert(tag_views(tags@) =~= tag_views(before).push((SipHeaderTagType::WarnText, q@)));
    Ok(())
}

/// `delta-seconds [ comment ]`, the comment in parentheses
fn retry_after<'a>(h: SipRFCHeader, s: &'a [u8], a: usize, b: usize, tags: &mut Tags<'a>) -> (r: Result<(), SipParseError>)
    requires
        a <= b <= s@.len(),
        tags_within(old(tags)@, s@),
    ensures
        tags_within(final(tags)@, s@),
        appended(spec_retry_after(h, s@, a as int, b as int), r, old(tags)@, final(tags)@),
{
    let e = need_run(h, s, a, b, ByteClass::Digit)?;
    let k = skip_ws(s, e, b);
    if k < b && s[k] == 0x28u8 {
        let close = find_byte(s, k + 1, b, 0x29u8);
        if close == b {
            return Err(SipParseError::ExpectedLiteral(0x29u8));
        }
        expect_end(h, s, close + 1, b)?;
        push_tag(tags, SipHeaderTagType::Seconds, s, a, e);
        push_tag(tags, SipHeaderTagType::Comment, s, k + 1, close);
    } else {
        expect_end(h, s, k, b)?;
        push_tag(tags, SipHeaderTagType::Seconds, s, a, e);
    }
    Ok(())
}

/// `word [ "@" word ]`; with `tagged`, pushes `ID` and `Host`.
fn call_id<'a>(h: SipRFCHeader, s: &'a [u8], a: usize, b: usize, tagged: bool, tags: &mut Tags<'a>) -> (r: Result<(), SipParseError>)
    requires
        a <= b <= s@.len(),
        tags_within(old(tags)@, s@),
    ensures
        tags_within(final(tags)@, s@),
        appended(spec_call_id(h, s@, a as int, b as int, tagged), r, old(tags)@, final(tags)@),
{
    let e = need_run(h, s, a, b, ByteClass::Word)?;
    if e < b && s[e] == 0x40u8 {
        let f = need_run(h, s, e + 1, b, ByteClass::Word)?;
        expect_end(h, s, f, b)?;
        if tagged {
            push_tag(tags, SipHeaderTagType::ID, s, a, e);
            push_tag(tags, SipHeaderTagType::Host, s, e + 1, f);
        }
    } else {
        expect_end(h, s, e, b)?;
        if tagged {
            push_tag(tags, SipHeaderTagType::ID, s, a, e);
        }
    }
    Ok(())
}

/// `"<" absoluteURI ">"`
fn info_uri<'a>(h: SipRFCHeader, s: &'a [u8], a: usize, b: usize, tags: &mut Tags<'a>) -> (r: Result<(), SipParseError>)
    requires
        a <= b <= s@.len(),
        tags_within(old(tags)@, s@),
    ensures
        tags_within(final(tags)@, s@),
        appended(spec_info_uri(h, s@, a as int, b as int), r, old(tags)@, final(tags)@),
{
    let k = expect(h, s, a, b, 0x3Cu8)?;
    let gt = find_byte(s, k, b, 0x3Eu8);
    if gt == b || gt == k {
        return Err(SipParseError::HeaderFormat(h));
    }
    expect_end(h, s, gt + 1, b)?;
    push_tag(tags, SipHeaderTagType::AbsoluteURI, s, k, gt);
    Ok(())
}

/// One authentication parameter at `p`; returns where the scan goes on.
fn auth_pair<'a>(h: SipRFCHeader, s: &'a [u8], p: usize, b: usize, challenge: bool, tags: &mut Tags<'a>) -> (r: Result<usize, SipParseError>)
    requires
        p < b <= s@.len(),
        tags_within(old(tags)@, s@),
    ensures
        tags_within(final(tags)@, s@),
        match spec_auth_pair(h, s@, p as int, b as int, challenge) {
            Ok((pre, nk)) => r == Ok::<usize, SipParseError>(nk as usize) && p < nk <= b
                && tag_views(final(tags)@) =~= tag_views(old(tags)@) + pre,
            Err(x) => r == Err::<usize, SipParseError>(x),
        },
{
    let ne = need_run(h, s, p, b, ByteClass::TokenChar)?;
    let name = slice_at(s, p, ne);
    let d = skip_ws(s, ne, b);
    let eq = expect(h, s, d, b, 0x3Du8)?;
    let vs = skip_ws(s, eq, b);
    let tag = auth_tag(name, challenge);
    if vs < b && s[vs] == 0x22u8 {
        let (ve, q) = quoted_at(s, vs, b)?;
        let nk = if ve > p {
            ve
        } else {
            p + 1
        };
        let after = skip_ws(s, nk, b);
        if after < b && s[after] != 0x2Cu8 {
            return Err(SipParseError::HeaderFormat(h));
        }
        let ghost before = tags@;
        if let Some(t) = tag {
            tags.push((t, q));
        }
        assert(tag_views(tags@) =~= tag_views(before) + opt_tag(tag, q@));
        Ok(nk)
    } else {
        let ve = run_at(s, vs, b, ByteClass::ParamChar);
        let nk = if ve > p {
            ve
        } else {
            p + 1
        };
        let after = skip_ws(s, nk, b);
        if after < b && s[after] != 0x2Cu8 {
            return Err(SipParseError::HeaderFormat(h));
        }
        let ghost before = tags@;
        if let Some(t) = tag {
            push_tag(tags, t, s, vs, ve);
        }
        assert(tag_views(tags@) =~= tag_views(before) + opt_tag(tag, s@.subrange(vs as int, ve as int)));
        Ok(nk)
    }
}

/// `[ scheme LWS ] auth-param *( "," auth-param )`, each `name "=" ( token / quoted-string )`;
/// known names are kept as tags.
fn auth_params<'a>(h: SipRFCHeader, s: &'a [u8], a: usize, b: usize, schema: bool, challenge: bool, tags: &mut Tags<'a>) -> (r: Result<(), SipParseError>)
    requires
        a <= b <= s@.len(),
        tags_within(old(tags)@, s@),
    ensures
        tags_within(final(tags)@, s@),
        appended(spec_auth(h, s@, a as int, b as int, schema, challenge), r, old(tags)@, final(tags)@),
{
    let ghost start = tag_views(tags@);
    let mut k = a;
    if schema {
        let e = need_run(h, s, a, b, ByteClass::TokenChar)?;
        push_tag(tags, SipHeaderTagType::AuthSchema, s, a, e);
        k = e;
    }
    proof {
        let base = tag_views(tags@);
        let t0 = base.subrange(start.len() as int, base.len() as int);
        if schema {
            assert(t0 =~= seq![(SipHeaderTagType::AuthSchema, s@.subrange(a as int, k as int))]);
        } else {
            assert(t0 =~= Seq::<(SipHeaderTagType, Seq<u8>)>::empty());
            match spec_auth_pairs(h, s@, k as int, b as int, challenge) {
                Ok(t) => {
                    assert(t0 + t =~= t);
                },
                Err(_) => {},
            }
        }
        assert(base.subrange(0, start.len() as int) =~= start);
    }
    loop
        invariant
            a <= k <= b <= s@.len(),
            tags_within(tags@, s@),
            start == tag_views(old(tags)@),
            tag_views(tags@).len() >= start.len(),
            tag_views(tags@).subrange(0, start.len() as int) == start,
            prefixed(
                tag_views(tags@).subrange(start.len() as int, tag_views(tags@).len() as int),
                spec_auth_pairs(h, s@, k as int, b as int, challenge),
            ) == spec_auth(h, s@, a as int, b as int, schema, challenge),
        decreases b - k,
    {
        let ghost cur = tag_views(tags@);
        let ghost acc = cur.subrange(start.len() as int, cur.len() as int);
        let p = skip_ws(s, k, b);
        if p == b {
            proof {
                assert(spec_auth_pairs(h, s@, k as int, b as int, challenge) == Ok::<
                    Seq<(SipHeaderTagType, Seq<u8>)>,
                    SipParseError,
                >(Seq::empty()));
                assert(acc + Seq::<(SipHeaderTagType, Seq<u8>)>::empty() =~= acc);
                assert(cur =~= start + acc);
            }
            return Ok(());
        }
        if s[p] == 0x2Cu8 {
            k = p + 1;
        } else {
            let nk = auth_pair(h, s, p, b, challenge, tags)?;
            proof {
                let pre = spec_auth_pair(h, s@, p as int, b as int, challenge)->Ok_0.0;
                let now = tag_views(tags@);
                assert(now.subrange(0, start.len() as int) =~= start);
                assert(now.subrange(start.len() as int, now.len() as int) =~= acc + pre);
                match spec_auth_pairs(h, s@, nk as int, b as int, challenge) {
                    Ok(t) => {
                        assert((acc + pre) + t =~= acc + (pre + t));
                    },
                    Err(_) => {},
                }
            }
            k = nk;
        }
    }
}

/// Text up to the end of the value; it must be UTF-8.
fn text(s: &[u8], a: usize, b: usize) -> (r: Result<(), SipParseError>)
    requires
        a <= b <= s@.len(),
    ensures
        r is Ok <==> valid_utf8(s@.subrange(a as int, b as int)),
        r matches Err(x) ==> x == SipParseError::InvalidUtf8,
{
    from_utf8_nom(slice_at(s, a, b))?;
    Ok(())
}

/// The tags that the grammar `g` yields for `[a, b)`; `None` for a name-addr, which yields a
/// URI besides (see `spec_name_addr`).
pub open spec fn spec_grammar_tags(h: SipRFCHeader, g: Grammar, s: Seq<u8>, a: int, b: int) -> Option<
    Result<Seq<(SipHeaderTagType, Seq<u8>)>, SipParseError>,
> {
    match g {
        Grammar::Via => Some(spec_via(h, s, a, b)),
        Grammar::CSeq => Some(spec_cseq(h, s, a, b)),
        Grammar::CallID => Some(spec_call_id(h, s, a, b, false)),
        Grammar::InReplyTo => Some(spec_call_id(h, s, a, b, true)),
        Grammar::Timestamp => Some(spec_timestamp(h, s, a, b)),
        Grammar::MimeVersion => Some(spec_mime_version(h, s, a, b)),
        Grammar::MediaType => Some(spec_media_type(h, s, a, b)),
        Grammar::Warning => Some(spec_warning(h, s, a, b)),
        Grammar::RetryAfter => Some(spec_retry_after(h, s, a, b)),
        Grammar::InfoUri => Some(spec_info_uri(h, s, a, b)),
        Grammar::Credentials => Some(spec_auth(h, s, a, b, true, false)),
        Grammar::Challenge => Some(spec_auth(h, s, a, b, true, true)),
        Grammar::AuthInfo => Some(spec_auth(h, s, a, b, false, false)),
        Grammar::Digit => Some(
            if a < b && forall|k: int| a <= k < b ==> crate::bnfcore::spec_is_digit(#[trigger] s[k]) {
                Ok(Seq::empty())
            } else {
                fmt_err(h)
            },
        ),
        Grammar::Token | Grammar::Disposition | Grammar::Date => Some(Ok(Seq::empty())),
        Grammar::Text => Some(
            if valid_utf8(s.subrange(a, b)) {
                Ok(Seq::empty())
            } else {
                Err(SipParseError::InvalidUtf8)
            },
        ),
        _ => None,
    }
}

pub open spec fn unit_of<T>(r: Result<T, SipParseError>) -> Result<(), SipParseError> {
    match r {
        Ok(_) => Ok(()),
        Err(e) => Err(e),
    }
}

/// Checks `[a, b)` against the grammar `g` of header `h` and pushes the tags it yields.
/// Returns the URI of a name-addr.
#[verifier::rlimit(60)]
pub fn parse_grammar<'a>(h: SipRFCHeader, g: Grammar, s: &'a [u8], a: usize, b: usize, tags: &mut Tags<'a>) -> (r: Result<Option<SipUri<'a>>, SipParseError>)
    requires
        a <= b <= s@.len(),
        tags_within(old(tags)@, s@),
    ensures
        tags_within(final(tags)@, s@),
        r matches Ok(Some(u)) ==> u.within(s@),
        g == Grammar::Digit && r is Ok ==> a < b && forall|k: int| a <= k < b ==> crate::bnfcore::spec_is_digit(#[trigger] s@[k]),
        spec_grammar_tags(h, g, s@, a as int, b as int) matches Some(sr) ==> appended(sr, unit_of(r), old(tags)@, final(tags)@),
        g != Grammar::NameAddr ==> r is Err || r == Ok::<Option<SipUri>, SipParseError>(None),
        g == Grammar::NameAddr ==> match spec_name_addr(s@, a as int, b as int) {
            Ok((t, v)) => r matches Ok(Some(u)) && uri_view(u) == v && tag_views(final(tags)@) =~= tag_views(old(tags)@) + t,
            Err(x) => r == Err::<Option<SipUri>, SipParseError>(x),
        },
{
    match g {
        Grammar::NameAddr => Ok(Some(name_addr(s, a, b, tags)?)),
        Grammar::Via => {
            via(h, s, a, b, tags)?;
            Ok(None)
        },
        Grammar::CSeq => {
            cseq(h, s, a, b, tags)?;
            Ok(None)
        },
        Grammar::CallID => {
            call_id(h, s, a, b, false, tags)?;
            Ok(None)
        },
        Grammar::InReplyTo => {
            call_id(h, s, a, b, true, tags)?;
            Ok(None)
        },
        Grammar::Digit => {
            digits(h, s, a, b)?;
            Ok(None)
        },
        Grammar::Timestamp => {
            timestamp(h, s, a, b, tags)?;
            Ok(None)
        },
        Grammar::MimeVersion => {
            mime_version(h, s, a, b, tags)?;
            Ok(None)
        },
        Grammar::MediaType => {
            media_type(h, s, a, b, tags)?;
            Ok(None)
        },
        Grammar::Warning => {
            warning(h, s, a, b, tags)?;
            Ok(None)
        },
        Grammar::RetryAfter => {
            retry_after(h, s, a, b, tags)?;
            Ok(None)
        },
        Grammar::InfoUri => {
            info_uri(h, s, a, b, tags)?;
            Ok(None)
        },
        Grammar::Credentials => {
            auth_params(h, s, a, b, true, false, tags)?;
            Ok(None)
        },
        Grammar::Challenge => {
            auth_params(h, s, a, b, true, true, tags)?;
            Ok(None)
        },
        Grammar::AuthInfo => {
            auth_params(h, s, a, b, false, false, tags)?;
            Ok(None)
        },
        Grammar::Text => {
            text(s, a, b)?;
            Ok(None)
        },
        Grammar::Token | Grammar::Disposition | Grammar::Date => Ok(None),
    }
}

} // verus!
