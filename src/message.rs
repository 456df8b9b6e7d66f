//! Whole messages: telling requests from responses, the start lines, and the body.
use vstd::prelude::*;
use crate::bnfcore::{is_digit, spec_is_digit, ByteClass};
use crate::errorparse::SipParseError;
use crate::headers::{entries_view, lemma_headers_end, spec_headers, EntryView, NameView, SipHeaders};
use crate::lexer::{byte_find, run_at, run_end, slice_at};
use crate::sipuri::find_byte;

verus! {

/// SIP-Version, e.g. `SIP/2.0` is `SipVersion(2, 0)`.
#[derive(Copy, Clone, PartialEq, Eq, Debug, Structural)]
pub struct SipVersion(pub u8, pub u8);

/// What the first three octets of a message announce.
#[derive(Copy, Clone, Debug, PartialEq, Eq, Structural)]
pub enum MessageType {
    Request,
    Response,
    Unknown,
}

pub open spec fn spec_starts3(s: Seq<u8>, a: u8, b: u8, c: u8) -> bool {
    s.len() >= 3 && s[0] == a && s[1] == b && s[2] == c
}

/// `SIP` announces a response; the first three letters of a method (ACK, BYE, REGISTER, CANCEL, INFO, INVITE, MESSAGE, NOTIFY, OPTIONS, PRACK, PUBLISH, REFER, SUBSCRIBE, UPDATE)
/// announce a request.
pub open spec fn spec_message_type(s: Seq<u8>) -> MessageType {
    if s.len() < 3 {
        MessageType::Unknown
    } else if spec_starts3(s, 0x53u8, 0x49u8, 0x50u8) {
        MessageType::Response
    } else if spec_starts3(s, 0x41u8, 0x43u8, 0x4Bu8)
        || spec_starts3(s, 0x42u8, 0x59u8, 0x45u8)
        || spec_starts3(s, 0x52u8, 0x45u8, 0x47u8)
        || spec_starts3(s, 0x43u8, 0x41u8, 0x4Eu8)
        || spec_starts3(s, 0x49u8, 0x4Eu8, 0x46u8)
        || spec_starts3(s, 0x49u8, 0x4Eu8, 0x56u8)
        || spec_starts3(s, 0x4Du8, 0x45u8, 0x53u8)
        || spec_starts3(s, 0x4Eu8, 0x4Fu8, 0x54u8)
        || spec_starts3(s, 0x4Fu8, 0x50u8, 0x54u8)
        || spec_starts3(s, 0x50u8, 0x52u8, 0x41u8)
        || spec_starts3(s, 0x50u8, 0x55u8, 0x42u8)
        || spec_starts3(s, 0x52u8, 0x45u8, 0x46u8)
        || spec_starts3(s, 0x53u8, 0x55u8, 0x42u8)
        || spec_starts3(s, 0x55u8, 0x50u8, 0x44u8) {
        MessageType::Request
    } else {
        MessageType::Unknown
    }
}

fn starts3(s: &[u8], a: u8, b: u8, c: u8) -> (r: bool)
    ensures
        r == spec_starts3(s@, a, b, c),
{
    s.len() >= 3 && s[0] == a && s[1] == b && s[2] == c
}

/// Tells the type of a message from its first three octets, without validating the rest of
/// the first line.
pub fn get_message_type(mt: &[u8]) -> (r: MessageType)
    ensures
        r == spec_message_type(mt@),
{
    if mt.len() < 3 {
        MessageType::Unknown
    } else if starts3(mt, 0x53u8, 0x49u8, 0x50u8) {
        MessageType::Response
    } else if starts3(mt, 0x41u8, 0x43u8, 0x4Bu8)
            || starts3(mt, 0x42u8, 0x59u8, 0x45u8)
            || starts3(mt, 0x52u8, 0x45u8, 0x47u8)
            || starts3(mt, 0x43u8, 0x41u8, 0x4Eu8)
            || starts3(mt, 0x49u8, 0x4Eu8, 0x46u8)
            || starts3(mt, 0x49u8, 0x4Eu8, 0x56u8)
            || starts3(mt, 0x4Du8, 0x45u8, 0x53u8)
            || starts3(mt, 0x4Eu8, 0x4Fu8, 0x54u8)
            || starts3(mt, 0x4Fu8, 0x50u8, 0x54u8)
            || starts3(mt, 0x50u8, 0x52u8, 0x41u8)
            || starts3(mt, 0x50u8, 0x55u8, 0x42u8)
            || starts3(mt, 0x52u8, 0x45u8, 0x46u8)
            || starts3(mt, 0x53u8, 0x55u8, 0x42u8)
            || starts3(mt, 0x55u8, 0x50u8, 0x44u8) {
        MessageType::Request
    } else {
        MessageType::Unknown
    }
}

/// A request: `Method SP Request-URI SP SIP-Version CRLF`, headers, body.
#[derive(Debug)]
pub struct SipRequest<'a> {
    pub method: &'a [u8],
    pub request_uri: &'a [u8],
    pub sip_version: SipVersion,
    pub headers: SipHeaders<'a>,
    pub body: &'a [u8],
}

/// A response: `SIP-Version SP Status-Code SP Reason-Phrase CRLF`, headers, body.
#[derive(Debug)]
pub struct SipResponse<'a> {
    pub sip_version: SipVersion,
    pub status_code: u16,
    pub reason_phrase: &'a [u8],
    pub headers: SipHeaders<'a>,
    pub body: &'a [u8],
}

#[derive(Debug)]
pub enum SipMessage<'a> {
    Request(SipRequest<'a>),
    Response(SipResponse<'a>),
}

/// A request as sequences.
pub struct RequestView {
    pub method: Seq<u8>,
    pub request_uri: Seq<u8>,
    pub sip_version: SipVersion,
    pub headers: Seq<(NameView, EntryView)>,
    pub body: Seq<u8>,
}

/// A response as sequences.
pub struct ResponseView {
    pub sip_version: SipVersion,
    pub status_code: u16,
    pub reason_phrase: Seq<u8>,
    pub headers: Seq<(NameView, EntryView)>,
    pub body: Seq<u8>,
}

pub open spec fn request_view(q: SipRequest) -> RequestView {
    RequestView {
        method: q.method@,
        request_uri: q.request_uri@,
        sip_version: q.sip_version,
        headers: entries_view(q.headers.view()),
        body: q.body@,
    }
}

pub open spec fn response_view(q: SipResponse) -> ResponseView {
    ResponseView {
        sip_version: q.sip_version,
        status_code: q.status_code,
        reason_phrase: q.reason_phrase@,
        headers: entries_view(q.headers.view()),
        body: q.body@,
    }
}

/// `"SIP/" DIGIT "." DIGIT` at `k`: the version and the index after it.
pub open spec fn spec_sip_version(s: Seq<u8>, k: int, j: int) -> Option<(SipVersion, int)> {
    if j - k < 7 || s[k] != 0x53u8 || s[k + 1] != 0x49u8 || s[k + 2] != 0x50u8 || s[k + 3]
        != 0x2Fu8 || !spec_is_digit(s[k + 4]) || s[k + 5] != 0x2Eu8 || !spec_is_digit(s[k + 6]) {
        None
    } else {
        Some((SipVersion((s[k + 4] - 0x30u8) as u8, (s[k + 6] - 0x30u8) as u8), k + 7))
    }
}

/// Where the start line that goes on at `k` ends: at the first CR, which a LF must follow.
pub open spec fn spec_start_line_end(s: Seq<u8>, k: int) -> Option<int> {
    let e = byte_find(s, k, s.len() as int, 0x0Du8);
    if s.len() - e < 2 || s[e + 1] != 0x0Au8 {
        None
    } else {
        Some(e)
    }
}

/// The header section from `k` (as `spec_headers` reads it) and the body after its empty line.
pub open spec fn spec_headers_and_body(s: Seq<u8>, k: int) -> Result<
    (Seq<(NameView, EntryView)>, Seq<u8>),
    SipParseError,
> {
    let h = s.subrange(k, s.len() as int);
    match spec_headers(h, 0) {
        Ok((es, rp)) => Ok((es, h.subrange(rp + 2, h.len() as int))),
        Err(x) => Err(x),
    }
}

/// A request: `Method SP Request-URI SP SIP-Version CRLF`, then the header section and the
/// body. A malformed start line gives `InvalidMessage`; an error of the header section is
/// passed on.
pub open spec fn spec_request(s: Seq<u8>) -> Result<RequestView, SipParseError> {
    let me = run_end(s, ByteClass::TokenChar, 0, s.len() as int);
    let us = me + 1;
    let ue = byte_find(s, us, s.len() as int, 0x20u8);
    if me == 0 || me == s.len() || s[me] != 0x20u8 || ue == us || ue == s.len() {
        Err(SipParseError::InvalidMessage)
    } else {
        match spec_sip_version(s, ue + 1, s.len() as int) {
            None => Err(SipParseError::InvalidMessage),
            Some((v, ve)) => match spec_start_line_end(s, ve) {
                None => Err(SipParseError::InvalidMessage),
                Some(le) => if le != ve {
                    Err(SipParseError::InvalidMessage)
                } else {
                    match spec_headers_and_body(s, le + 2) {
                        Err(x) => Err(x),
                        Ok((es, body)) => Ok(
                            RequestView {
                                method: s.subrange(0, me),
                                request_uri: s.subrange(us, ue),
                                sip_version: v,
                                headers: es,
                                body,
                            },
                        ),
                    }
                },
            },
        }
    }
}

/// A response: `SIP-Version SP Status-Code SP Reason-Phrase CRLF`, then the header section and
/// the body. The status code is three digits, the first not `0`.
pub open spec fn spec_response(s: Seq<u8>) -> Result<ResponseView, SipParseError> {
    match spec_sip_version(s, 0, s.len() as int) {
        None => Err(SipParseError::InvalidMessage),
        Some((v, k)) => if s.len() - k < 5 || s[k] != 0x20u8 || !spec_is_digit(s[k + 1])
            || !spec_is_digit(s[k + 2]) || !spec_is_digit(s[k + 3]) || s[k + 4] != 0x20u8
            || s[k + 1] == 0x30u8 {
            Err(SipParseError::InvalidMessage)
        } else {
            match spec_start_line_end(s, k + 5) {
                None => Err(SipParseError::InvalidMessage),
                Some(le) => match spec_headers_and_body(s, le + 2) {
                    Err(x) => Err(x),
                    Ok((es, body)) => Ok(
                        ResponseView {
                            sip_version: v,
                            status_code: ((s[k + 1] - 0x30u8) * 100 + (s[k + 2] - 0x30u8) * 10 + (
                            s[k + 3] - 0x30u8)) as u16,
                            reason_phrase: s.subrange(k + 5, le),
                            headers: es,
                            body,
                        },
                    ),
                },
            }
        },
    }
}

fn sip_version(s: &[u8], k: usize, j: usize) -> (r: Result<(SipVersion, usize), SipParseError>)
    requires
        k <= j <= s@.len(),
    ensures
        match spec_sip_version(s@, k as int, j as int) {
            Some((v, e)) => r == Ok::<(SipVersion, usize), SipParseError>((v, e as usize)) && e <= j,
            None => r == Err::<(SipVersion, usize), SipParseError>(SipParseError::InvalidMessage),
        },
{
    if j - k < 7 || s[k] != 0x53u8 || s[k + 1] != 0x49u8 || s[k + 2] != 0x50u8 || s[k + 3]
        != 0x2Fu8 || !is_digit(s[k + 4]) || s[k + 5] != 0x2Eu8 || !is_digit(s[k + 6]) {
        return Err(SipParseError::InvalidMessage);
    }
    Ok((SipVersion(s[k + 4] - 0x30u8, s[k + 6] - 0x30u8), k + 7))
}

fn start_line_end(s: &[u8], k: usize) -> (r: Result<usize, SipParseError>)
    requires
        k <= s@.len(),
    ensures
        match spec_start_line_end(s@, k as int) {
            Some(e) => r == Ok::<usize, SipParseError>(e as usize) && k <= e && e + 2 <= s@.len(),
            None => r == Err::<usize, SipParseError>(SipParseError::InvalidMessage),
        },
{
    let e = find_byte(s, k, s.len(), 0x0Du8);
    if s.len() - e < 2 || s[e + 1] != 0x0Au8 {
        return Err(SipParseError::InvalidMessage);
    }
    Ok(e)
}

fn headers_and_body<'a>(s: &'a [u8], k: usize) -> (r: Result<(SipHeaders<'a>, &'a [u8]), SipParseError>)
    requires
        k <= s@.len(),
    ensures
        match spec_headers_and_body(s@, k as int) {
            Ok((es, body)) => r matches Ok((hs, b)) && entries_view(hs.view()) == es && b@ == body,
            Err(x) => r == Err::<(SipHeaders, &[u8]), SipParseError>(x),
        },
{
    let h = slice_at(s, k, s.len());
    let (rest, headers) = SipHeaders::parse(h)?;
    let body = slice_at(rest, 2, rest.len());
    proof {
        let rp = spec_headers(h@, 0)->Ok_0.1;
        lemma_headers_end(h@, 0);
        assert(body@ =~= h@.subrange(rp + 2, h@.len() as int));
    }
    Ok((headers, body))
}

impl<'a> SipRequest<'a> {
    /// Parses a request: start line, header section and body.
    pub fn parse(s: &'a [u8]) -> (r: Result<(&'a [u8], SipRequest<'a>), SipParseError>)
        ensures
            match spec_request(s@) {
                Ok(v) => r matches Ok((rest, q)) && rest@.len() == 0 && request_view(q) == v,
                Err(x) => r == Err::<(&[u8], SipRequest), SipParseError>(x),
            },
    {
        let me = run_at(s, 0, s.len(), ByteClass::TokenChar);
        if me == 0 || me == s.len() || s[me] != 0x20u8 {
            return Err(SipParseError::InvalidMessage);
        }
        let us = me + 1;
        let ue = find_byte(s, us, s.len(), 0x20u8);
        if ue == us || ue == s.len() {
            return Err(SipParseError::InvalidMessage);
        }
        let (sip_version, ve) = sip_version(s, ue + 1, s.len())?;
        let le = start_line_end(s, ve)?;
        if le != ve {
            return Err(SipParseError::InvalidMessage);
        }
        let (headers, body) = headers_and_body(s, le + 2)?;
        let req = SipRequest {
            method: slice_at(s, 0, me),
            request_uri: slice_at(s, us, ue),
            sip_version,
            headers,
            body,
        };
        Ok((slice_at(s, s.len(), s.len()), req))
    }
}

impl<'a> SipResponse<'a> {
    /// Parses a response: status line, header section and body.
    pub fn parse(s: &'a [u8]) -> (r: Result<(&'a [u8], SipResponse<'a>), SipParseError>)
        ensures
            match spec_response(s@) {
                Ok(v) => r matches Ok((rest, q)) && rest@.len() == 0 && response_view(q) == v,
                Err(x) => r == Err::<(&[u8], SipResponse), SipParseError>(x),
            },
            r matches Ok((_, resp)) ==> 100 <= resp.status_code <= 999,
    {
        let (sip_version, k) = sip_version(s, 0, s.len())?;
        if s.len() - k < 5 || s[k] != 0x20u8 || !is_digit(s[k + 1]) || !is_digit(s[k + 2])
            || !is_digit(s[k + 3]) || s[k + 4] != 0x20u8 || s[k + 1] == 0x30u8 {
            return Err(SipParseError::InvalidMessage);
        }
        let status_code = (s[k + 1] - 0x30u8) as u16 * 100 + (s[k + 2] - 0x30u8) as u16 * 10 + (
        s[k + 3] - 0x30u8) as u16;
        let le = start_line_end(s, k + 5)?;
        let (headers, body) = headers_and_body(s, le + 2)?;
        let resp = SipResponse {
            sip_version,
            status_code,
            reason_phrase: slice_at(s, k + 5, le),
            headers,
            body,
        };
        Ok((slice_at(s, s.len(), s.len()), resp))
    }
}

impl<'a> SipMessage<'a> {
    pub fn request(&self) -> (r: Option<&SipRequest<'a>>)
        ensures
            match self {
                SipMessage::Request(c) => r == Some(c),
                SipMessage::Response(_) => r is None,
            },
    {
        if let SipMessage::Request(c) = self {
            Some(&c)
        } else {
            None
        }
    }

    pub fn response(&self) -> (r: Option<&SipResponse<'a>>)
        ensures
            match self {
                SipMessage::Response(c) => r == Some(c),
                SipMessage::Request(_) => r is None,
            },
    {
        if let SipMessage::Response(c) = self {
            Some(&c)
        } else {
            None
        }
    }

    /// Parses a request or a response, as its first three octets announce; an unknown start
    /// gives `InvalidMessage`.
    pub fn parse(raw_message: &'a [u8]) -> (r: Result<(&'a [u8], SipMessage<'a>), SipParseError>)
        ensures
            match spec_message_type(raw_message@) {
                MessageType::Request => match spec_request(raw_message@) {
                    Ok(v) => r matches Ok((rest, SipMessage::Request(q))) && rest@.len() == 0
                        && request_view(q) == v,
                    Err(x) => r == Err::<(&[u8], SipMessage), SipParseError>(x),
                },
                MessageType::Response => match spec_response(raw_message@) {
                    Ok(v) => r matches Ok((rest, SipMessage::Response(q))) && rest@.len() == 0
                        && response_view(q) == v,
                    Err(x) => r == Err::<(&[u8], SipMessage), SipParseError>(x),
                },
                MessageType::Unknown => r == Err::<(&[u8], SipMessage), SipParseError>(
                    SipParseError::InvalidMessage,
                ),
            },
    {
        match get_message_type(raw_message) {
            MessageType::Request => {
                let (inp, request) = SipRequest::parse(raw_message)?;
                Ok((inp, SipMessage::Request(request)))
            },
            MessageType::Response => {
                let (inp, response) = SipResponse::parse(raw_message)?;
                Ok((inp, SipMessage::Response(response)))
            },
            MessageType::Unknown => Err(SipParseError::InvalidMessage),
        }
    }
}

} // verus!
