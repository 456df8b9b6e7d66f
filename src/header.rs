//! Parsed headers: values with their semantic tags, parameters and URIs.
use vstd::prelude::*;
use crate::bytes::{eq_ignore_case, is_slice_of, spec_lower};
use crate::header_name::SipRFCHeader;

verus! {

/// The semantic shape of a parsed header value.
#[derive(Clone, Copy, Debug, PartialEq, Eq, Structural)]
pub enum SipHeaderValueType {
    EmptyValue,
    TokenValue,
    Utf8Text,
    Digit,
    NameAddr,
    QuotedString,
    Method,
    ProtocolVersion,
    MediaType,
    Language,
    Scheme,
    Delta,
    Comment,
    Warning,
    Challenge,
    Credentials,
    Disposition,
    Date,
    CallID,
    CSeqVal,
    AbsoluteURI,
    Timestamp,
    MimeVersion,
    AuthInfo,
    InReplyTo,
    RetryAfter,
}

/// The key of a semantic sub-field of a header value.
#[derive(Clone, Copy, Debug, PartialEq, Eq, Hash, Structural)]
pub enum SipHeaderTagType {
    DisplayName,
    Username,
    Realm,
    Nonce,
    URI,
    Dresponse,
    Opaque,
    Stale,
    Algorithm,
    AuthSchema,
    QopValue,
    Qop,
    Cnonce,
    Nc,
    NextNonce,
    Rspauth,
    Domain,
    Host,
    Port,
    ProtocolName,
    ProtocolVersion,
    ProtocolTransport,
    Number,
    Method,
    AbsoluteURI,
    ID,
    WarnCode,
    WarnAgent,
    WarnText,
    Comment,
    Seconds,
    Major,
    Minor,
    TimeVal,
    Delay,
    Type,
    Subtype,
}

/// The scheme of a URI.
#[derive(Clone, Copy, Debug, PartialEq, Eq, Structural)]
pub enum RequestUriScheme {
    SIP,
    SIPS,
    TEL,
}

/// A list of `name[=value]` parameters, in the order in which they appear.
pub type GenericParams<'a> = Vec<(&'a [u8], Option<&'a [u8]>)>;

/// The user part of a URI, with its password when there is one.
#[derive(Debug)]
pub struct UserInfo<'a> {
    pub value: &'a [u8],
    pub password: Option<&'a [u8]>,
}

/// The host of a URI and its port when one is given.
#[derive(Debug)]
pub struct HostPort<'a> {
    pub host: &'a [u8],
    pub port: Option<&'a [u8]>,
}

/// A `sip:`, `sips:` or `tel:` URI.
#[derive(Debug)]
pub struct SipUri<'a> {
    pub scheme: RequestUriScheme,
    pub user_info: Option<UserInfo<'a>>,
    pub hostport: HostPort<'a>,
    pub params: Option<GenericParams<'a>>,
    pub headers: Option<GenericParams<'a>>,
}

/// A parsed header value.
#[derive(Debug)]
pub struct HeaderValue<'a> {
    /// the value, trimmed of surrounding whitespace; folded whitespace inside is kept
    pub vstr: &'a [u8],
    pub vtype: SipHeaderValueType,
    pub tags: Vec<(SipHeaderTagType, &'a [u8])>,
    pub sip_uri: Option<SipUri<'a>>,
}

/// The name of a header: one of the RFC set, or an extension name as written.
#[derive(Debug)]
pub enum HeaderName<'a> {
    Rfc(SipRFCHeader),
    Extension(&'a [u8]),
}

/// One header entry: its name, value and header-level parameters.
#[derive(Debug)]
pub struct Header<'a> {
    pub name: HeaderName<'a>,
    pub value: HeaderValue<'a>,
    pub params: Option<GenericParams<'a>>,
}

pub open spec fn opt_within(o: Option<&[u8]>, b: Seq<u8>) -> bool {
    match o {
        Some(s) => is_slice_of(s@, b),
        None => true,
    }
}

pub open spec fn params_within(p: Seq<(&[u8], Option<&[u8]>)>, b: Seq<u8>) -> bool {
    forall|i: int| 0 <= i < p.len() ==> is_slice_of((#[trigger] p[i]).0@, b) && opt_within(p[i].1, b)
}

pub open spec fn opt_params_within(p: Option<GenericParams>, b: Seq<u8>) -> bool {
    match p {
        Some(v) => params_within(v@, b),
        None => true,
    }
}

pub open spec fn tags_within(t: Seq<(SipHeaderTagType, &[u8])>, b: Seq<u8>) -> bool {
    forall|i: int| 0 <= i < t.len() ==> is_slice_of((#[trigger] t[i]).1@, b)
}

/// The first value under `k`.
pub open spec fn spec_tag(t: Seq<(SipHeaderTagType, &[u8])>, k: SipHeaderTagType) -> Option<Seq<u8>>
    decreases t.len(),
{
    if t.len() == 0 {
        None
    } else if t[0].0 == k {
        Some(t[0].1@)
    } else {
        spec_tag(t.drop_first(), k)
    }
}

/// The last parameter whose name equals `name` ignoring case.
pub open spec fn spec_param(p: Seq<(&[u8], Option<&[u8]>)>, name: Seq<u8>) -> Option<Option<Seq<u8>>>
    decreases p.len(),
{
    if p.len() == 0 {
        None
    } else if spec_lower(p.last().0@) == spec_lower(name) {
        Some(
            match p.last().1 {
                Some(v) => Some(v@),
                None => None,
            },
        )
    } else {
        spec_param(p.drop_last(), name)
    }
}

pub open spec fn opt_bytes_view(o: Option<&[u8]>) -> Option<Seq<u8>> {
    match o {
        Some(v) => Some(v@),
        None => None,
    }
}

pub open spec fn opt_opt_view(o: Option<Option<&[u8]>>) -> Option<Option<Seq<u8>>> {
    match o {
        Some(v) => Some(opt_bytes_view(v)),
        None => None,
    }
}

/// Looks a parameter up by name, ignoring case; where a name repeats, the last one wins.
pub fn params_get<'a>(p: &GenericParams<'a>, name: &[u8]) -> (r: Option<Option<&'a [u8]>>)
    ensures
        opt_opt_view(r) == spec_param(p@, name@),
{
    let mut i: usize = p.len();
    assert(p@.subrange(0, p@.len() as int) =~= p@);
    while i > 0
        invariant
            i <= p.len(),
            spec_param(p@.subrange(0, i as int), name@) == spec_param(p@, name@),
        decreases i,
    {
        let (n, v) = p[i - 1];
        if eq_ignore_case(n, name) {
            return Some(v);
        }
        proof {
            assert(p@.subrange(0, i as int).drop_last() =~= p@.subrange(0, i - 1));
        }
        i -= 1;
    }
    None
}

impl<'a> UserInfo<'a> {
    pub open spec fn within(&self, b: Seq<u8>) -> bool {
        is_slice_of(self.value@, b) && opt_within(self.password, b)
    }
}

impl<'a> SipUri<'a> {
    pub open spec fn within(&self, b: Seq<u8>) -> bool {
        &&& match self.user_info {
            Some(u) => u.within(b),
            None => true,
        }
        &&& is_slice_of(self.hostport.host@, b)
        &&& opt_within(self.hostport.port, b)
        &&& opt_params_within(self.params, b)
        &&& opt_params_within(self.headers, b)
    }

    pub fn user_info(&self) -> (r: Option<&UserInfo<'a>>)
        ensures
            match self.user_info {
                Some(u) => r == Some(&u),
                None => r is None,
            },
    {
        self.user_info.as_ref()
    }

    pub fn has_params(&self) -> (r: bool)
        ensures
            r == self.params is Some,
    {
        self.params.is_some()
    }

    /// The URI parameter `name`, ignoring case: `Some(None)` for a flag such as `;lr`.
    pub fn param(&self, name: &[u8]) -> (r: Option<Option<&'a [u8]>>)
        ensures
            opt_opt_view(r) == match self.params {
                Some(p) => spec_param(p@, name@),
                None => None,
            },
    {
        match &self.params {
            Some(p) => params_get(p, name),
            None => None,
        }
    }
}

impl<'a> HeaderValue<'a> {
    /// Every slice of the value lies in `b`.
    pub open spec fn within(&self, b: Seq<u8>) -> bool {
        &&& is_slice_of(self.vstr@, b)
        &&& tags_within(self.tags@, b)
        &&& match self.sip_uri {
            Some(u) => u.within(b),
            None => true,
        }
    }

    /// The first tag under `k`.
    pub fn tag(&self, k: SipHeaderTagType) -> (r: Option<&'a [u8]>)
        ensures
            opt_bytes_view(r) == spec_tag(self.tags@, k),
    {
        let mut i: usize = 0;
        assert(self.tags@.subrange(0, self.tags@.len() as int) =~= self.tags@);
        while i < self.tags.len()
            invariant
                i <= self.tags@.len(),
                spec_tag(self.tags@.subrange(i as int, self.tags@.len() as int), k) == spec_tag(
                    self.tags@,
                    k,
                ),
            decreases self.tags.len() - i,
        {
            let (kk, v) = self.tags[i];
            proof {
                assert(self.tags@.subrange(i as int, self.tags@.len() as int).drop_first()
                    =~= self.tags@.subrange(i + 1, self.tags@.len() as int));
            }
            if kk == k {
                return Some(v);
            }
            i += 1;
        }
        None
    }

    pub fn has_tags(&self) -> (r: bool)
        ensures
            r == (self.tags@.len() > 0),
    {
        self.tags.len() > 0
    }

    pub fn sip_uri(&self) -> (r: Option<&SipUri<'a>>)
        ensures
            match self.sip_uri {
                Some(u) => r == Some(&u),
                None => r is None,
            },
    {
        self.sip_uri.as_ref()
    }
}

impl<'a> Header<'a> {
    pub open spec fn within(&self, b: Seq<u8>) -> bool {
        &&& match self.name {
            HeaderName::Extension(n) => is_slice_of(n@, b),
            HeaderName::Rfc(_) => true,
        }
        &&& self.value.within(b)
        &&& opt_params_within(self.params, b)
    }

    pub fn has_params(&self) -> (r: bool)
        ensures
            r == self.params is Some,
    {
        self.params.is_some()
    }

    /// The header parameter `name`, ignoring case: `Some(None)` for a flag parameter.
    pub fn param(&self, name: &[u8]) -> (r: Option<Option<&'a [u8]>>)
        ensures
            opt_opt_view(r) == match self.params {
                Some(p) => spec_param(p@, name@),
                None => None,
            },
    {
        match &self.params {
            Some(p) => params_get(p, name),
            None => None,
        }
    }
}

} // verus!
