//! URIs: `sip:`, `sips:` and `tel:`, with user info, host, port, parameters and headers.
use vstd::prelude::*;
use crate::bnfcore::ByteClass;
use crate::bytes::{eq_ignore_case, spec_lower};
use crate::errorparse::SipParseError;
use crate::header::{params_within, GenericParams, HostPort, SipUri, UserInfo, RequestUriScheme};
use crate::bytes::is_slice_of;
use crate::lexer::{
    byte_find, lemma_byte_find, param_view, params_view, parse_params, run_at, run_end, slice_at,
    spec_params, ParamView,
};
use crate::nom_wrappers::{escaped_run_end, lemma_escaped_run_bounds, take_while_with_escaped};

verus! {

/// `s[i..]` starts with `lit`, ignoring case.
pub fn starts_with_ci(s: &[u8], i: usize, j: usize, lit: &[u8]) -> (r: bool)
    requires
        i <= j <= s@.len(),
    ensures
        r == (i + lit@.len() <= j && spec_lower(s@.subrange(i as int, i + lit@.len())) == spec_lower(lit@)),
{
    if j - i < lit.len() {
        return false;
    }
    eq_ignore_case(slice_at(s, i, i + lit.len()), lit)
}

/// The first `c` in `[i, j)`, or `j`.
pub fn find_byte(s: &[u8], i: usize, j: usize, c: u8) -> (r: usize)
    requires
        i <= j <= s@.len(),
    ensures
        i <= r <= j,
        r < j ==> s@[r as int] == c,
        forall|k: int| i <= k < r ==> s@[k] != c,
        r == byte_find(s@, i as int, j as int, c),
{
    let mut k: usize = i;
    while k < j && s[k] != c
        invariant
            i <= k <= j,
            j <= s@.len(),
            forall|m: int| i <= m < k ==> s@[m] != c,
        decreases j - k,
    {
        k += 1;
    }
    proof {
        lemma_byte_find(s@, i as int, j as int, c, k as int);
    }
    k
}

/// A URI as sequences: scheme, user and password, host, port, parameters and headers.
pub struct UriView {
    pub scheme: RequestUriScheme,
    pub user: Option<Seq<u8>>,
    pub password: Option<Seq<u8>>,
    pub host: Seq<u8>,
    pub port: Option<Seq<u8>>,
    pub params: Option<Seq<ParamView>>,
    pub headers: Option<Seq<ParamView>>,
}

pub open spec fn opt_view(o: Option<&[u8]>) -> Option<Seq<u8>> {
    match o {
        Some(v) => Some(v@),
        None => None,
    }
}

pub open spec fn opt_params_view(o: Option<GenericParams>) -> Option<Seq<ParamView>> {
    match o {
        Some(v) => Some(params_view(v@)),
        None => None,
    }
}

pub open spec fn uri_view(u: SipUri) -> UriView {
    UriView {
        scheme: u.scheme,
        user: match u.user_info {
            Some(ui) => Some(ui.value@),
            None => None,
        },
        password: match u.user_info {
            Some(ui) => opt_view(ui.password),
            None => None,
        },
        host: u.hostport.host@,
        port: opt_view(u.hostport.port),
        params: opt_params_view(u.params),
        headers: opt_params_view(u.headers),
    }
}

pub open spec fn spec_starts_ci(s: Seq<u8>, i: int, j: int, lit: Seq<u8>) -> bool {
    i + lit.len() <= j && spec_lower(s.subrange(i, i + lit.len())) == spec_lower(lit)
}

/// The scheme at `i` (`sip:`, `sips:` or `tel:`, ignoring case) and the index after it.
pub open spec fn spec_scheme(s: Seq<u8>, i: int, j: int) -> Option<(RequestUriScheme, int)> {
    if spec_starts_ci(s, i, j, seq![0x73u8, 0x69u8, 0x70u8, 0x3Au8]) {
        Some((RequestUriScheme::SIP, i + 4))
    } else if spec_starts_ci(s, i, j, seq![0x73u8, 0x69u8, 0x70u8, 0x73u8, 0x3Au8]) {
        Some((RequestUriScheme::SIPS, i + 5))
    } else if spec_starts_ci(s, i, j, seq![0x74u8, 0x65u8, 0x6Cu8, 0x3Au8]) {
        Some((RequestUriScheme::TEL, i + 4))
    } else {
        None
    }
}

/// The last `c` in `[k, q)`, or `acc` when there is none.
pub open spec fn last_from(s: Seq<u8>, k: int, q: int, c: u8, acc: int) -> int
    decreases q - k,
{
    if k >= q {
        acc
    } else {
        last_from(s, k + 1, q, c, if s[k] == c { k } else { acc })
    }
}

/// URI headers `hname [ "=" hvalue ] *( "&" ... )` from `k` to `j`.
pub open spec fn spec_uri_headers(s: Seq<u8>, k: int, j: int) -> Result<Seq<ParamView>, SipParseError>
    decreases j - k,
{
    let e = byte_find(s, k, j, 0x26u8);
    let eq = byte_find(s, k, e, 0x3Du8);
    let nk = if e < j { e + 1 } else { j };
    let item = (s.subrange(k, eq), if eq < e { Some(s.subrange(eq + 1, e)) } else { None });
    if k < 0 || k >= j {
        Ok(Seq::empty())
    } else if eq == k {
        Err(SipParseError::InvalidUri)
    } else if k < nk <= j {
        match spec_uri_headers(s, nk, j) {
            Ok(t) => Ok(seq![item] + t),
            Err(x) => Err(x),
        }
    } else {
        Ok(seq![item])
    }
}

/// The scheme and user part of the URI at `i`: the scheme, the user and password when an `@`
/// comes before any `?` (the last such `@`), and where the host starts. The user must consist
/// of user characters and `%HH` escapes.
pub open spec fn spec_uri_user(s: Seq<u8>, i: int, j: int) -> Result<
    (RequestUriScheme, Option<(Seq<u8>, Option<Seq<u8>>)>, int),
    SipParseError,
> {
    match spec_scheme(s, i, j) {
        None => Err(SipParseError::InvalidUri),
        Some((scheme, ps)) => {
            let q = byte_find(s, ps, j, 0x3Fu8);
            let at = last_from(s, ps, q, 0x40u8, q);
            let colon = byte_find(s, ps, at, 0x3Au8);
            let value = s.subrange(ps, colon);
            let er = escaped_run_end(value, ByteClass::User, 0);
            if at >= q {
                Ok((scheme, None, ps))
            } else if er < value.len() {
                if value[er] == 0x25u8 {
                    Err(SipParseError::InvalidEscape)
                } else {
                    Err(SipParseError::InvalidUri)
                }
            } else {
                Ok(
                    (
                        scheme,
                        Some((value, if colon < at { Some(s.subrange(colon + 1, at)) } else { None })),
                        at + 1,
                    ),
                )
            }
        },
    }
}

/// The host at `p` (a bracketed IPv6 reference, a host name, or for a `tel:` URI without user
/// the number) and the port after a `:`, of 1 to 5 digits; and where they end.
pub open spec fn spec_uri_host(s: Seq<u8>, tel_number: bool, p: int, j: int) -> Result<
    (Seq<u8>, Option<Seq<u8>>, int),
    SipParseError,
> {
    let he = if tel_number {
        run_end(s, ByteClass::ParamChar, p, j)
    } else if p < j && s[p] == 0x5Bu8 {
        if byte_find(s, p, j, 0x5Du8) == j {
            p
        } else {
            byte_find(s, p, j, 0x5Du8) + 1
        }
    } else {
        run_end(s, ByteClass::Host, p, j)
    };
    let has_port = he < j && s[he] == 0x3Au8;
    let pe = run_end(s, ByteClass::Digit, he + 1, j);
    if he == p || (has_port && (pe == he + 1 || pe - (he + 1) > 5)) {
        Err(SipParseError::InvalidUri)
    } else if has_port {
        Ok((s.subrange(p, he), Some(s.subrange(he + 1, pe)), pe))
    } else {
        Ok((s.subrange(p, he), None, he))
    }
}

/// What follows the host and port at `e`: `[ ";" params ] [ "?" headers ]` up to `j`.
pub open spec fn spec_uri_tail(s: Seq<u8>, e: int, j: int) -> Result<
    (Option<Seq<ParamView>>, Option<Seq<ParamView>>),
    SipParseError,
> {
    let qe = byte_find(s, e, j, 0x3Fu8);
    if (e < qe && s[e] != 0x3Bu8) || (e < qe && spec_params(s, e, qe) is Err) || (qe < j
        && spec_uri_headers(s, qe + 1, j) is Err) {
        Err(SipParseError::InvalidUri)
    } else {
        Ok(
            (
                if e < qe { Some(spec_params(s, e, qe)->Ok_0) } else { None },
                if qe < j { Some(spec_uri_headers(s, qe + 1, j)->Ok_0) } else { None },
            ),
        )
    }
}

/// The URI that fills `[i, j)`: `scheme [ user [ ":" password ] "@" ] host [ ":" port ]
/// [ ";" params ] [ "?" headers ]`.
pub open spec fn spec_uri(s: Seq<u8>, i: int, j: int) -> Result<UriView, SipParseError> {
    match spec_uri_user(s, i, j) {
        Err(x) => Err(x),
        Ok((scheme, user, p)) => match spec_uri_host(s, scheme == RequestUriScheme::TEL && user is None, p, j) {
            Err(x) => Err(x),
            Ok((host, port, e)) => match spec_uri_tail(s, e, j) {
                Err(x) => Err(x),
                Ok((params, headers)) => Ok(
                    UriView {
                        scheme,
                        user: match user {
                            Some((u, _)) => Some(u),
                            None => None,
                        },
                        password: match user {
                            Some((_, pw)) => pw,
                            None => None,
                        },
                        host,
                        port,
                        params,
                        headers,
                    },
                ),
            },
        },
    }
}

/// URI headers `hname=hvalue *( "&" hname=hvalue )` over `[i, j)`.
fn parse_uri_headers<'a>(s: &'a [u8], i: usize, j: usize) -> (r: Result<GenericParams<'a>, SipParseError>)
    requires
        i <= j <= s@.len(),
    ensures
        r matches Ok(p) ==> params_within(p@, s@),
        match spec_uri_headers(s@, i as int, j as int) {
            Ok(t) => r matches Ok(p) && params_view(p@) == t,
            Err(x) => r == Err::<GenericParams, SipParseError>(x),
        },
{
    let mut out: GenericParams<'a> = Vec::new();
    let mut k: usize = i;
    assert(params_view(out@) =~= Seq::<ParamView>::empty());
    while k < j
        invariant
            i <= k <= j <= s@.len(),
            params_within(out@, s@),
            match spec_uri_headers(s@, i as int, j as int) {
                Ok(whole) => match spec_uri_headers(s@, k as int, j as int) {
                    Ok(t) => whole == params_view(out@) + t,
                    Err(_) => false,
                },
                Err(x) => spec_uri_headers(s@, k as int, j as int) == Err::<Seq<ParamView>, SipParseError>(x),
            },
        decreases j - k,
    {
        let ghost before = out@;
        let e = find_byte(s, k, j, 0x26u8);
        let eq = find_byte(s, k, e, 0x3Du8);
        if eq == k {
            return Err(SipParseError::InvalidUri);
        }
        let name = slice_at(s, k, eq);
        if eq < e {
            let v = slice_at(s, eq + 1, e);
            out.push((name, Some(v)));
        } else {
            out.push((name, None));
        }
        let nk = if e < j {
            e + 1
        } else {
            j
        };
        proof {
            let item = param_view(out@.last());
            assert(params_view(out@) =~= params_view(before).push(item));
            match spec_uri_headers(s@, nk as int, j as int) {
                Ok(t) => {
                    assert(params_view(before) + (seq![item] + t) =~= params_view(out@) + t);
                },
                Err(_) => {},
            }
            if nk == j {
                assert(seq![item] + Seq::<ParamView>::empty() =~= seq![item]);
            }
        }
        k = nk;
    }
    proof {
        assert(params_view(out@) + Seq::<ParamView>::empty() =~= params_view(out@));
    }
    Ok(out)
}

fn uri_user<'a>(s: &'a [u8], i: usize, j: usize) -> (r: Result<(RequestUriScheme, Option<UserInfo<'a>>, usize), SipParseError>)
    requires
        i <= j <= s@.len(),
    ensures
        match spec_uri_user(s@, i as int, j as int) {
            Ok((scheme, user, p)) => r matches Ok((sc, u, pp)) && sc == scheme && pp == p && pp <= j
                && match u {
                    Some(ui) => ui.within(s@) && user == Some((ui.value@, opt_view(ui.password))),
                    None => user is None,
                },
            Err(x) => r == Err::<(RequestUriScheme, Option<UserInfo>, usize), SipParseError>(x),
        },
{
    let scheme;
    let p: usize;
    if starts_with_ci(s, i, j, vec![0x73u8, 0x69u8, 0x70u8, 0x3Au8].as_slice()) {
        scheme = RequestUriScheme::SIP;
        p = i + 4;
    } else if starts_with_ci(s, i, j, vec![0x73u8, 0x69u8, 0x70u8, 0x73u8, 0x3Au8].as_slice()) {
        scheme = RequestUriScheme::SIPS;
        p = i + 5;
    } else if starts_with_ci(s, i, j, vec![0x74u8, 0x65u8, 0x6Cu8, 0x3Au8].as_slice()) {
        scheme = RequestUriScheme::TEL;
        p = i + 4;
    } else {
        return Err(SipParseError::InvalidUri);
    }
    // the user part ends at the last `@` before any `?`
    let q = find_byte(s, p, j, 0x3Fu8);
    let mut at = q;
    let mut k = p;
    while k < q
        invariant
            p <= k <= q <= j <= s@.len(),
            p <= at <= q,
            last_from(s@, k as int, q as int, 0x40u8, at as int) == last_from(
                s@,
                p as int,
                q as int,
                0x40u8,
                q as int,
            ),
        decreases q - k,
    {
        if s[k] == 0x40u8 {
            at = k;
        }
        k += 1;
    }
    if at < q {
        let colon = find_byte(s, p, at, 0x3Au8);
        let value = slice_at(s, p, colon);
        let (_, run) = take_while_with_escaped(value, ByteClass::User);
        proof {
            lemma_escaped_run_bounds(value@, ByteClass::User, 0);
        }
        if run.len() < value.len() {
            if value[run.len()] == 0x25u8 {
                return Err(SipParseError::InvalidEscape);
            }
            return Err(SipParseError::InvalidUri);
        }
        let password = if colon < at {
            Some(slice_at(s, colon + 1, at))
        } else {
            None
        };
        Ok((scheme, Some(UserInfo { value, password }), at + 1))
    } else {
        Ok((scheme, None, p))
    }
}

fn uri_host<'a>(s: &'a [u8], tel_number: bool, p: usize, j: usize) -> (r: Result<(HostPort<'a>, usize), SipParseError>)
    requires
        p <= j <= s@.len(),
    ensures
        match spec_uri_host(s@, tel_number, p as int, j as int) {
            Ok((host, port, e)) => r matches Ok((hp, ee)) && hp.host@ == host && opt_view(hp.port) == port
                && ee == e && ee <= j && is_slice_of(hp.host@, s@) && crate::header::opt_within(hp.port, s@),
            Err(x) => r == Err::<(HostPort, usize), SipParseError>(x),
        },
{
    let he;
    if tel_number {
        he = run_at(s, p, j, ByteClass::ParamChar);
    } else if p < j && s[p] == 0x5Bu8 {
        let close = find_byte(s, p, j, 0x5Du8);
        if close == j {
            return Err(SipParseError::InvalidUri);
        }
        he = close + 1;
    } else {
        he = run_at(s, p, j, ByteClass::Host);
    }
    if he == p {
        return Err(SipParseError::InvalidUri);
    }
    let host = slice_at(s, p, he);
    if he < j && s[he] == 0x3Au8 {
        let pe = run_at(s, he + 1, j, ByteClass::Digit);
        if pe == he + 1 || pe - (he + 1) > 5 {
            return Err(SipParseError::InvalidUri);
        }
        Ok((HostPort { host, port: Some(slice_at(s, he + 1, pe)) }, pe))
    } else {
        Ok((HostPort { host, port: None }, he))
    }
}

fn uri_tail<'a>(s: &'a [u8], e: usize, j: usize) -> (r: Result<(Option<GenericParams<'a>>, Option<GenericParams<'a>>), SipParseError>)
    requires
        e <= j <= s@.len(),
    ensures
        match spec_uri_tail(s@, e as int, j as int) {
            Ok((params, headers)) => r matches Ok((p, h)) && opt_params_view(p) == params
                && opt_params_view(h) == headers && crate::header::opt_params_within(p, s@)
                && crate::header::opt_params_within(h, s@),
            Err(x) => r == Err::<(Option<GenericParams>, Option<GenericParams>), SipParseError>(x),
        },
{
    let qe = find_byte(s, e, j, 0x3Fu8);
    let params = if e < qe {
        if s[e] != 0x3Bu8 {
            return Err(SipParseError::InvalidUri);
        }
        match parse_params(s, e, qe) {
            Ok(v) => Some(v),
            Err(_) => {
                return Err(SipParseError::InvalidUri);
            },
        }
    } else {
        None
    };
    let headers = if qe < j {
        match parse_uri_headers(s, qe + 1, j) {
            Ok(v) => Some(v),
            Err(_) => {
                return Err(SipParseError::InvalidUri);
            },
        }
    } else {
        None
    };
    Ok((params, headers))
}

/// Parses the URI that fills `[i, j)`.
pub fn parse_uri<'a>(s: &'a [u8], i: usize, j: usize) -> (r: Result<SipUri<'a>, SipParseError>)
    requires
        i <= j <= s@.len(),
    ensures
        r matches Ok(u) ==> u.within(s@),
        match spec_uri(s@, i as int, j as int) {
            Ok(v) => r matches Ok(u) && uri_view(u) == v,
            Err(x) => r == Err::<SipUri, SipParseError>(x),
        },
{
    let (scheme, user_info, p) = uri_user(s, i, j)?;
    let tel_number = scheme == RequestUriScheme::TEL && user_info.is_none();
    let (hostport, e) = uri_host(s, tel_number, p, j)?;
    let (params, headers) = uri_tail(s, e, j)?;
    Ok(SipUri { scheme, user_info, hostport, params, headers })
}

} // verus!
