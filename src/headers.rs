//! The header section: reading header lines, dispatching each value to its grammar, and the
//! map of parsed headers.
use vstd::prelude::*;
use crate::bnfcore::{spec_is_digit, spec_is_wsp, is_wsp, ByteClass};
use crate::bytes::{eq_ignore_case, is_slice_of, is_suffix_of, lemma_slice_trans, spec_lower};
use crate::errorparse::SipParseError;
use crate::grammar::{
    grammar_of, is_foldable, spec_is_foldable, parse_grammar, spec_grammar_of, spec_grammar_tags, spec_takes_params,
    spec_name_addr, tag_views, takes_params, Grammar, Tags,
};
use crate::header::{
    opt_params_within, GenericParams, Header, HeaderName, HeaderValue, SipHeaderTagType,
    SipHeaderValueType,
};
use crate::header_name::{spec_rfc_header_of, SipRFCHeader};
use crate::sipuri::{opt_params_view, uri_view, UriView};
use crate::nom_wrappers::sws_end;
use crate::lexer::{
    find_top, is_top_sep, parse_params, run_at, skip_ws, slice_at, spec_is_ws, spec_params,
    run_end, scan_state, sws_at, top_find, trim_back, ws_back, ws_end, ParamView,
};

verus! {

/// A CRLF at `k` that no WSP follows: the end of a header line.
pub open spec fn is_line_end(s: Seq<u8>, k: int) -> bool {
    0 <= k && k + 1 < s.len() && s[k] == 0x0Du8 && s[k + 1] == 0x0Au8 && (k + 2 == s.len()
        || !spec_is_wsp(s[k + 2]))
}

/// The first end of a header line at or after `i`, or `s.len()` when there is none.
pub fn line_end(s: &[u8], i: usize) -> (r: usize)
    requires
        i <= s@.len(),
    ensures
        i <= r <= s@.len(),
        r < s@.len() ==> is_line_end(s@, r as int),
        forall|k: int| i <= k < r ==> !is_line_end(s@, k),
        r == spec_line_end(s@, i as int),
{
    let mut k: usize = i;
    while k < s.len()
        invariant
            i <= k <= s@.len(),
            forall|m: int| i <= m < k ==> !is_line_end(s@, m),
        decreases s@.len() - k,
    {
        if s.len() - k >= 2 && s[k] == 0x0Du8 && s[k + 1] == 0x0Au8 && (s.len() - k == 2
            || !is_wsp(s[k + 2])) {
            proof {
                lemma_line_end(s@, i as int, k as int);
            }
            return k;
        }
        k += 1;
    }
    proof {
        lemma_line_end(s@, i as int, k as int);
    }
    k
}

pub open spec fn vtype_of(g: Grammar) -> SipHeaderValueType {
    match g {
        Grammar::NameAddr => SipHeaderValueType::NameAddr,
        Grammar::Via => SipHeaderValueType::ProtocolVersion,
        Grammar::CSeq => SipHeaderValueType::CSeqVal,
        Grammar::CallID => SipHeaderValueType::CallID,
        Grammar::Digit => SipHeaderValueType::Digit,
        Grammar::Timestamp => SipHeaderValueType::Timestamp,
        Grammar::MediaType => SipHeaderValueType::MediaType,
        Grammar::Token => SipHeaderValueType::TokenValue,
        Grammar::Disposition => SipHeaderValueType::Disposition,
        Grammar::Credentials => SipHeaderValueType::Credentials,
        Grammar::Challenge => SipHeaderValueType::Challenge,
        Grammar::AuthInfo => SipHeaderValueType::AuthInfo,
        Grammar::Date => SipHeaderValueType::Date,
        Grammar::RetryAfter => SipHeaderValueType::Delta,
        Grammar::Warning => SipHeaderValueType::Warning,
        Grammar::InReplyTo => SipHeaderValueType::InReplyTo,
        Grammar::InfoUri => SipHeaderValueType::AbsoluteURI,
        Grammar::MimeVersion => SipHeaderValueType::MimeVersion,
        Grammar::Text => SipHeaderValueType::Utf8Text,
    }
}

fn value_type(g: Grammar) -> (r: SipHeaderValueType)
    ensures
        r == vtype_of(g),
{
    match g {
        Grammar::NameAddr => SipHeaderValueType::NameAddr,
        Grammar::Via => SipHeaderValueType::ProtocolVersion,
        Grammar::CSeq => SipHeaderValueType::CSeqVal,
        Grammar::CallID => SipHeaderValueType::CallID,
        Grammar::Digit => SipHeaderValueType::Digit,
        Grammar::Timestamp => SipHeaderValueType::Timestamp,
        Grammar::MediaType => SipHeaderValueType::MediaType,
        Grammar::Token => SipHeaderValueType::TokenValue,
        Grammar::Disposition => SipHeaderValueType::Disposition,
        Grammar::Credentials => SipHeaderValueType::Credentials,
        Grammar::Challenge => SipHeaderValueType::Challenge,
        Grammar::AuthInfo => SipHeaderValueType::AuthInfo,
        Grammar::Date => SipHeaderValueType::Date,
        Grammar::RetryAfter => SipHeaderValueType::Delta,
        Grammar::Warning => SipHeaderValueType::Warning,
        Grammar::InReplyTo => SipHeaderValueType::InReplyTo,
        Grammar::InfoUri => SipHeaderValueType::AbsoluteURI,
        Grammar::MimeVersion => SipHeaderValueType::MimeVersion,
        Grammar::Text => SipHeaderValueType::Utf8Text,
    }
}

/// A value of type `Digit` holds ASCII digits only.
pub open spec fn digit_value_ok(v: HeaderValue) -> bool {
    v.vtype == SipHeaderValueType::Digit ==> forall|k: int|
        0 <= k < v.vstr@.len() ==> spec_is_digit(#[trigger] v.vstr@[k])
}

/// A parsed entry as sequences: value, type, tags, URI and parameters.
pub struct EntryView {
    pub vstr: Seq<u8>,
    pub vtype: SipHeaderValueType,
    pub tags: Seq<(SipHeaderTagType, Seq<u8>)>,
    pub uri: Option<UriView>,
    pub params: Option<Seq<ParamView>>,
}

pub open spec fn entry_view(v: HeaderValue, p: Option<GenericParams>) -> EntryView {
    EntryView {
        vstr: v.vstr@,
        vtype: v.vtype,
        tags: tag_views(v.tags@),
        uri: match v.sip_uri {
            Some(u) => Some(uri_view(u)),
            None => None,
        },
        params: opt_params_view(p),
    }
}

/// The entry parsed from `[i, j)` of `s`. For an RFC header: the value proper runs to the
/// first `;` outside quotes and angle brackets where the grammar takes parameters (else to
/// `j`), `vstr` is it trimmed of whitespace, the parameters are the list after that `;`, and
/// the tags (and the URI of a name-addr) are what the grammar yields. For an extension header:
/// `vstr` is the whole value trimmed, and its parameters are read where they follow the generic
/// grammar.
#[verifier::opaque]
pub open spec fn spec_entry(h: Option<SipRFCHeader>, s: Seq<u8>, i: int, j: int) -> Result<EntryView, SipParseError> {
    match h {
        None => {
            let a = ws_end(s, i, j);
            let b = ws_back(s, a, j);
            let p = top_find(s, a, a, b, 0x3Bu8);
            Ok(
                EntryView {
                    vstr: s.subrange(a, b),
                    vtype: if a == b { SipHeaderValueType::EmptyValue } else { SipHeaderValueType::TokenValue },
                    tags: Seq::empty(),
                    uri: None,
                    params: if p < b {
                        match spec_params(s, p, b) {
                            Ok(pv) => Some(pv),
                            Err(_) => None,
                        }
                    } else {
                        None
                    },
                },
            )
        },
        Some(h) => {
            let g = spec_grammar_of(h);
            let e = if spec_takes_params(g) { top_find(s, i, i, j, 0x3Bu8) } else { j };
            let a = ws_end(s, i, e);
            let b = ws_back(s, a, e);
            let vtype = if a == b && g == Grammar::Token {
                SipHeaderValueType::EmptyValue
            } else {
                vtype_of(g)
            };
            let params = if e < j { Some(spec_params(s, e, j)->Ok_0) } else { None };
            if e < j && spec_params(s, e, j) is Err {
                Err(spec_params(s, e, j)->Err_0)
            } else if g == Grammar::NameAddr {
                match spec_name_addr(s, a, b) {
                    Err(x) => Err(x),
                    Ok((t, uv)) => Ok(EntryView { vstr: s.subrange(a, b), vtype, tags: t, uri: Some(uv), params }),
                }
            } else {
                match spec_grammar_tags(h, g, s, a, b) {
                    Some(Ok(t)) => Ok(EntryView { vstr: s.subrange(a, b), vtype, tags: t, uri: None, params }),
                    Some(Err(x)) => Err(x),
                    None => Err(SipParseError::InvalidToken),
                }
            }
        },
    }
}

/// Parses one value that fills `[i, j)` of `s`: the value proper, trimmed of whitespace, and
/// its header-level parameters. `None` stands for an extension header, whose value is kept
/// whole and whose parameters are read where they follow the generic grammar.
pub fn parse_entry<'a>(h: Option<SipRFCHeader>, s: &'a [u8], i: usize, j: usize) -> (r: Result<
    (HeaderValue<'a>, Option<GenericParams<'a>>),
    SipParseError,
>)
    requires
        i <= j <= s@.len(),
    ensures
        r matches Ok((v, p)) ==> v.within(s@) && opt_params_within(p, s@) && digit_value_ok(v),
        match spec_entry(h, s@, i as int, j as int) {
            Ok(ev) => r matches Ok((v, p)) && entry_view(v, p) == ev,
            Err(x) => r == Err::<(HeaderValue, Option<GenericParams>), SipParseError>(x),
        },
{
    reveal(spec_entry);
    match h {
        None => {
            let a = skip_ws(s, i, j);
            let b = trim_back(s, a, j);
            let p = find_top(s, a, b, 0x3Bu8);
            let params = if p < b {
                match parse_params(s, p, b) {
                    Ok(v) => Some(v),
                    Err(_) => None,
                }
            } else {
                None
            };
            let vtype = if a == b {
                SipHeaderValueType::EmptyValue
            } else {
                SipHeaderValueType::TokenValue
            };
            let value = HeaderValue { vstr: slice_at(s, a, b), vtype, tags: Vec::new(), sip_uri: None };
            assert(tag_views(value.tags@) =~= Seq::empty());
            Ok((value, params))
        },
        Some(h) => {
            let g = grammar_of(h);
            let p = if takes_params(g) {
                find_top(s, i, j, 0x3Bu8)
            } else {
                j
            };
            let a = skip_ws(s, i, p);
            let b = trim_back(s, a, p);
            let params = if p < j {
                Some(parse_params(s, p, j)?)
            } else {
                None
            };
            let mut tags: Tags<'a> = Vec::new();
            let vtype = if a == b && g == Grammar::Token {
                SipHeaderValueType::EmptyValue
            } else {
                value_type(g)
            };
            let ghost tags0 = tags@;
            assert(tag_views(tags0) =~= Seq::empty());
            let sip_uri = parse_grammar(h, g, s, a, b, &mut tags)?;
            proof {
                let t0 = Seq::<(SipHeaderTagType, Seq<u8>)>::empty();
                match spec_grammar_tags(h, g, s@, a as int, b as int) {
                    Some(Ok(t)) => {
                        assert(t0 + t =~= t);
                    },
                    _ => {},
                }
                if g == Grammar::NameAddr {
                    match spec_name_addr(s@, a as int, b as int) {
                        Ok((t, _)) => {
                            assert(t0 + t =~= t);
                        },
                        _ => {},
                    }
                }
            }
            let value = HeaderValue { vstr: slice_at(s, a, b), vtype, tags, sip_uri };
            Ok((value, params))
        },
    }
}

/// The name of an entry is what its raw name `n` stands for.
pub open spec fn names_match(name: HeaderName, n: Seq<u8>) -> bool {
    match name {
        HeaderName::Rfc(h) => spec_rfc_header_of(n) == Some(h),
        HeaderName::Extension(e) => e@ == n && spec_rfc_header_of(n) is None,
    }
}

/// Two entries fall under the same name: the same RFC header, or extension names equal
/// without regard to case.
pub open spec fn same_key(a: HeaderName, b: HeaderName) -> bool {
    match (a, b) {
        (HeaderName::Rfc(x), HeaderName::Rfc(y)) => x == y,
        (HeaderName::Extension(x), HeaderName::Extension(y)) => spec_lower(x@) == spec_lower(y@),
        _ => false,
    }
}

/// The number of distinct names among the first `n` entries.
pub open spec fn distinct_names(e: Seq<Header>, n: int) -> nat
    decreases n,
{
    if n <= 0 {
        0
    } else {
        distinct_names(e, n - 1) + if exists|k: int| 0 <= k < n - 1 && same_key(
            #[trigger] e[k].name,
            e[n - 1].name,
        ) {
            0nat
        } else {
            1nat
        }
    }
}

pub open spec fn is_rfc(e: Header, h: SipRFCHeader) -> bool {
    e.name matches HeaderName::Rfc(x) && x == h
}

pub open spec fn is_ext(e: Header, name: Seq<u8>) -> bool {
    e.name matches HeaderName::Extension(x) && spec_lower(x@) == spec_lower(name)
}

/// The entries under RFC name `h`, in order.
pub open spec fn rfc_entries<'a>(e: Seq<Header<'a>>, h: SipRFCHeader) -> Seq<Header<'a>>
    decreases e.len(),
{
    if e.len() == 0 {
        Seq::empty()
    } else if is_rfc(e.last(), h) {
        rfc_entries(e.drop_last(), h).push(e.last())
    } else {
        rfc_entries(e.drop_last(), h)
    }
}

/// The entries under extension name `name` (ignoring case), in order.
pub open spec fn ext_entries<'a>(e: Seq<Header<'a>>, name: Seq<u8>) -> Seq<Header<'a>>
    decreases e.len(),
{
    if e.len() == 0 {
        Seq::empty()
    } else if is_ext(e.last(), name) {
        ext_entries(e.drop_last(), name).push(e.last())
    } else {
        ext_entries(e.drop_last(), name)
    }
}

/// The parsed header section: every entry in the order of the input, comma-separated values
/// of a foldable header as separate entries.
#[derive(Debug)]
pub struct SipHeaders<'a> {
    entries: Vec<Header<'a>>,
}

impl<'a> SipHeaders<'a> {
    pub closed spec fn view(&self) -> Seq<Header<'a>> {
        self.entries@
    }

    /// Every entry, in order.
    pub fn entries(&self) -> (r: &Vec<Header<'a>>)
        ensures
            r@ == self.view(),
    {
        &self.entries
    }

    /// The number of distinct header names.
    pub fn len(&self) -> (r: usize)
        ensures
            r == distinct_names(self.view(), self.view().len() as int),
    {
        let mut count: usize = 0;
        let mut i: usize = 0;
        while i < self.entries.len()
            invariant
                i <= self.entries@.len(),
                count == distinct_names(self.entries@, i as int),
                count <= i,
            decreases self.entries.len() - i,
        {
            let mut seen = false;
            let mut k: usize = 0;
            while k < i
                invariant
                    k <= i < self.entries@.len(),
                    seen <==> exists|m: int| 0 <= m < k && same_key(
                        #[trigger] self.entries@[m].name,
                        self.entries@[i as int].name,
                    ),
                decreases i - k,
            {
                if same_name(&self.entries[k].name, &self.entries[i].name) {
                    seen = true;
                }
                k += 1;
            }
            if !seen {
                count += 1;
            }
            i += 1;
        }
        count
    }

    /// Every entry under the RFC name `h`, in order; `None` when there is none.
    pub fn get_rfc(&self, h: SipRFCHeader) -> (r: Option<Vec<&Header<'a>>>)
        ensures
            match r {
                None => rfc_entries(self.view(), h).len() == 0,
                Some(v) => v@.len() > 0 && v@.map_values(|x: &Header<'a>| *x) == rfc_entries(self.view(), h),
            },
    {
        let mut out: Vec<&Header<'a>> = Vec::new();
        let mut i: usize = 0;
        while i < self.entries.len()
            invariant
                i <= self.entries@.len(),
                out@.map_values(|x: &Header<'a>| *x) == rfc_entries(self.entries@.subrange(0, i as int), h),
            decreases self.entries.len() - i,
        {
            let e = &self.entries[i];
            proof {
                assert(self.entries@.subrange(0, i + 1).drop_last() =~= self.entries@.subrange(0, i as int));
            }
            if let HeaderName::Rfc(x) = e.name {
                if x == h {
                    out.push(e);
                    assert(out@.map_values(|x: &Header<'a>| *x) =~= rfc_entries(self.entries@.subrange(0, i as int), h).push(*e));
                }
            }
            i += 1;
        }
        assert(self.entries@.subrange(0, self.entries@.len() as int) =~= self.entries@);
        if out.len() == 0 {
            None
        } else {
            Some(out)
        }
    }

    /// The first entry under the RFC name `h`.
    pub fn get_rfc_s(&self, h: SipRFCHeader) -> (r: Option<&Header<'a>>)
        ensures
            match r {
                None => forall|k: int| 0 <= k < self.view().len() ==> !is_rfc(#[trigger] self.view()[k], h),
                Some(e) => exists|k: int| 0 <= k < self.view().len() && *e == #[trigger] self.view()[k]
                    && is_rfc(self.view()[k], h) && forall|m: int| 0 <= m < k ==> !is_rfc(#[trigger] self.view()[m], h),
            },
    {
        let mut i: usize = 0;
        while i < self.entries.len()
            invariant
                i <= self.entries@.len(),
                forall|m: int| 0 <= m < i ==> !is_rfc(#[trigger] self.entries@[m], h),
            decreases self.entries.len() - i,
        {
            if let HeaderName::Rfc(x) = self.entries[i].name {
                if x == h {
                    assert(is_rfc(self.view()[i as int], h) && self.entries[i as int] == self.view()[i as int]);
                    return Some(&self.entries[i]);
                }
            }
            i += 1;
        }
        None
    }

    /// Every entry under the extension name `name`, ignoring case, in order; `None` when there
    /// is none.
    pub fn get_ext(&self, name: &[u8]) -> (r: Option<Vec<&Header<'a>>>)
        ensures
            match r {
                None => ext_entries(self.view(), name@).len() == 0,
                Some(v) => v@.len() > 0 && v@.map_values(|x: &Header<'a>| *x) == ext_entries(self.view(), name@),
            },
    {
        let mut out: Vec<&Header<'a>> = Vec::new();
        let mut i: usize = 0;
        while i < self.entries.len()
            invariant
                i <= self.entries@.len(),
                out@.map_values(|x: &Header<'a>| *x) == ext_entries(self.entries@.subrange(0, i as int), name@),
            decreases self.entries.len() - i,
        {
            let e = &self.entries[i];
            proof {
                assert(self.entries@.subrange(0, i + 1).drop_last() =~= self.entries@.subrange(0, i as int));
            }
            if let HeaderName::Extension(x) = e.name {
                if eq_ignore_case(x, name) {
                    out.push(e);
                    assert(out@.map_values(|x: &Header<'a>| *x) =~= ext_entries(self.entries@.subrange(0, i as int), name@).push(*e));
                }
            }
            i += 1;
        }
        assert(self.entries@.subrange(0, self.entries@.len() as int) =~= self.entries@);
        if out.len() == 0 {
            None
        } else {
            Some(out)
        }
    }

    /// The first entry under the extension name `name`, ignoring case.
    pub fn get_ext_s(&self, name: &[u8]) -> (r: Option<&Header<'a>>)
        ensures
            match r {
                None => forall|k: int| 0 <= k < self.view().len() ==> !is_ext(#[trigger] self.view()[k], name@),
                Some(e) => exists|k: int| 0 <= k < self.view().len() && *e == #[trigger] self.view()[k]
                    && is_ext(self.view()[k], name@) && forall|m: int| 0 <= m < k ==> !is_ext(#[trigger] self.view()[m], name@),
            },
    {
        let mut i: usize = 0;
        while i < self.entries.len()
            invariant
                i <= self.entries@.len(),
                forall|m: int| 0 <= m < i ==> !is_ext(#[trigger] self.entries@[m], name@),
            decreases self.entries.len() - i,
        {
            if let HeaderName::Extension(x) = self.entries[i].name {
                if eq_ignore_case(x, name) {
                    assert(is_ext(self.view()[i as int], name@) && self.entries[i as int] == self.view()[i as int]);
                    return Some(&self.entries[i]);
                }
            }
            i += 1;
        }
        None
    }
}

/// What holds of every entry that the driver produces from `b`: its slices lie in `b`, a
/// `Digit` value holds digits only, and its name is what a name written in `b` stands for.
pub open spec fn entry_ok(e: Header, b: Seq<u8>) -> bool {
    &&& e.within(b)
    &&& digit_value_ok(e.value)
    &&& exists|n: Seq<u8>| is_slice_of(n, b) && #[trigger] names_match(e.name, n)
}

pub open spec fn entries_ok(e: Seq<Header>, b: Seq<u8>) -> bool {
    forall|k: int| 0 <= k < e.len() ==> entry_ok(#[trigger] e[k], b)
}

/// The name of an entry as a value: an RFC header, or an extension name as written.
pub enum NameView {
    Rfc(SipRFCHeader),
    Ext(Seq<u8>),
}

pub open spec fn name_view(n: HeaderName) -> NameView {
    match n {
        HeaderName::Rfc(h) => NameView::Rfc(h),
        HeaderName::Extension(e) => NameView::Ext(e@),
    }
}

pub open spec fn entries_view(e: Seq<Header>) -> Seq<(NameView, EntryView)> {
    e.map_values(|x: Header| (name_view(x.name), entry_view(x.value, x.params)))
}

/// The first end of a header line at or after `i`, or `s.len()`.
pub open spec fn spec_line_end(s: Seq<u8>, i: int) -> int
    decreases s.len() - i,
{
    if i < 0 || i >= s.len() {
        s.len() as int
    } else if is_line_end(s, i) {
        i
    } else {
        spec_line_end(s, i + 1)
    }
}

proof fn lemma_line_end(s: Seq<u8>, i: int, r: int)
    requires
        0 <= i <= r <= s.len(),
        forall|k: int| i <= k < r ==> !is_line_end(s, k),
        r == s.len() || is_line_end(s, r),
    ensures
        spec_line_end(s, i) == r,
    decreases r - i,
{
    if i < r {
        lemma_line_end(s, i + 1, r);
    }
}

/// The entries of a foldable header's value `v` from `k`: one for each part between commas
/// read at top level that holds more than whitespace.
#[verifier::opaque]
pub open spec fn spec_fold(h: SipRFCHeader, v: Seq<u8>, k: int) -> Result<Seq<(NameView, EntryView)>, SipParseError>
    decreases v.len() - k,
{
    let comma = top_find(v, k, k, v.len() as int, 0x2Cu8);
    let seg = v.subrange(k, comma);
    let here = if ws_end(v, k, comma) < comma {
        match spec_entry(Some(h), seg, 0, seg.len() as int) {
            Ok(ev) => Ok(seq![(NameView::Rfc(h), ev)]),
            Err(x) => Err(x),
        }
    } else {
        Ok(Seq::empty())
    };
    if k < 0 || k > v.len() {
        Ok(Seq::empty())
    } else {
        match here {
            Err(x) => Err(x),
            Ok(t1) => if k <= comma < v.len() {
                match spec_fold(h, v, comma + 1) {
                    Ok(t2) => Ok(t1 + t2),
                    Err(x) => Err(x),
                }
            } else {
                Ok(t1)
            },
        }
    }
}

/// The header line at `pos`: its entries and where the next line starts.
#[verifier::opaque]
pub open spec fn spec_line(s: Seq<u8>, pos: int) -> Result<(Seq<(NameView, EntryView)>, int), SipParseError> {
    let ne = run_end(s, ByteClass::TokenChar, pos, s.len() as int);
    let c = sws_end(s, ne);
    let ve = spec_line_end(s, c + 1);
    let name = s.subrange(pos, ne);
    let v = s.subrange(c + 1, ve);
    if ne == pos {
        if pos == s.len() {
            Err(SipParseError::UnexpectedEof)
        } else {
            Err(SipParseError::InvalidToken)
        }
    } else if c >= s.len() || s[c] != 0x3Au8 {
        Err(SipParseError::ExpectedLiteral(0x3Au8))
    } else if ve == s.len() {
        Err(SipParseError::UnexpectedEof)
    } else {
        match spec_rfc_header_of(name) {
            Some(h) => if spec_is_foldable(h) {
                match spec_fold(h, v, 0) {
                    Ok(es) => Ok((es, ve + 2)),
                    Err(x) => Err(x),
                }
            } else {
                match spec_entry(Some(h), v, 0, v.len() as int) {
                    Ok(ev) => Ok((seq![(NameView::Rfc(h), ev)], ve + 2)),
                    Err(x) => Err(x),
                }
            },
            None => match spec_entry(None, v, 0, v.len() as int) {
                Ok(ev) => Ok((seq![(NameView::Ext(name), ev)], ve + 2)),
                Err(x) => Err(x),
            },
        }
    }
}

/// The header section from `pos`: the entries of its lines, in order, and where the empty line
/// that ends it starts.
pub open spec fn spec_headers(s: Seq<u8>, pos: int) -> Result<(Seq<(NameView, EntryView)>, int), SipParseError>
    decreases s.len() - pos,
{
    if pos < 0 || pos > s.len() {
        Err(SipParseError::UnexpectedEof)
    } else if s.len() - pos >= 2 && s[pos] == 0x0Du8 && s[pos + 1] == 0x0Au8 {
        Ok((Seq::empty(), pos))
    } else {
        match spec_line(s, pos) {
            Err(x) => Err(x),
            Ok((es, np)) => if pos < np <= s.len() {
                match spec_headers(s, np) {
                    Ok((t, rp)) => Ok((es + t, rp)),
                    Err(x) => Err(x),
                }
            } else {
                Err(SipParseError::UnexpectedEof)
            },
        }
    }
}

/// Where the header section ends lies in the input, with room for the empty line.
pub proof fn lemma_headers_end(s: Seq<u8>, pos: int)
    requires
        0 <= pos <= s.len(),
    ensures
        spec_headers(s, pos) matches Ok((_, rp)) ==> pos <= rp && rp + 2 <= s.len(),
    decreases s.len() - pos,
{
    if !(s.len() - pos >= 2 && s[pos] == 0x0Du8 && s[pos + 1] == 0x0Au8) {
        match spec_line(s, pos) {
            Ok((_, np)) => if pos < np <= s.len() {
                lemma_headers_end(s, np);
            },
            Err(_) => {},
        }
    }
}

proof fn lemma_value_lift(v: HeaderValue, p: Option<GenericParams>, a: Seq<u8>, b: Seq<u8>)
    requires
        v.within(a),
        opt_params_within(p, a),
        is_slice_of(a, b),
    ensures
        v.within(b),
        opt_params_within(p, b),
{
    lemma_slice_trans(v.vstr@, a, b);
    assert forall|i: int| 0 <= i < v.tags@.len() implies is_slice_of((#[trigger] v.tags@[i]).1@, b) by {
        lemma_slice_trans(v.tags@[i].1@, a, b);
    }
    lemma_params_lift(p, a, b);
    if let Some(u) = v.sip_uri {
        if let Some(ui) = u.user_info {
            lemma_slice_trans(ui.value@, a, b);
            if let Some(pw) = ui.password {
                lemma_slice_trans(pw@, a, b);
            }
        }
        lemma_slice_trans(u.hostport.host@, a, b);
        if let Some(pt) = u.hostport.port {
            lemma_slice_trans(pt@, a, b);
        }
        lemma_params_lift(u.params, a, b);
        lemma_params_lift(u.headers, a, b);
    }
}

proof fn lemma_params_lift(p: Option<GenericParams>, a: Seq<u8>, b: Seq<u8>)
    requires
        opt_params_within(p, a),
        is_slice_of(a, b),
    ensures
        opt_params_within(p, b),
{
    if let Some(v) = p {
        assert forall|i: int| 0 <= i < v@.len() implies is_slice_of((#[trigger] v@[i]).0@, b)
            && crate::header::opt_within(v@[i].1, b) by {
            lemma_slice_trans(v@[i].0@, a, b);
            if let Some(x) = v@[i].1 {
                lemma_slice_trans(x@, a, b);
            }
        }
    }
}

fn push_entry<'a>(entries: &mut Vec<Header<'a>>, e: Header<'a>, s: &[u8])
    requires
        entries_ok(old(entries)@, s@),
        entry_ok(e, s@),
    ensures
        entries_ok(final(entries)@, s@),
        entries_view(final(entries)@) == entries_view(old(entries)@).push(
            (name_view(e.name), entry_view(e.value, e.params)),
        ),
{
    entries.push(e);
    proof {
        assert forall|k: int| 0 <= k < entries@.len() implies entry_ok(#[trigger] entries@[k], s@) by {
            if k < entries@.len() - 1 {
                assert(entries@[k] == old(entries)@[k]);
            }
        }
        assert(entries_view(entries@) =~= entries_view(old(entries)@).push(
            (name_view(e.name), entry_view(e.value, e.params)),
        ));
    }
}

impl<'a> SipHeaders<'a> {
    /// Reads header lines up to the empty line that ends the section. Returns the rest of the
    /// input, which starts with that empty line's CRLF, and the parsed headers.
    ///
    /// A line is `name SWS ":" value CRLF`, the value running to the first CRLF that no WSP
    /// follows. The name is looked up without regard to case, compact aliases included; a name
    /// outside the RFC set makes an extension entry. The value of a foldable header is split
    /// at every comma outside quoted strings and angle brackets, each part an entry of its own.
    /// Any error discards the whole parse.
    pub fn parse(input: &'a [u8]) -> (r: Result<(&'a [u8], SipHeaders<'a>), SipParseError>)
        ensures
            match spec_headers(input@, 0) {
                Ok((es, rp)) => r matches Ok((rest, hs)) && rest@ == input@.subrange(rp, input@.len() as int)
                    && entries_view(hs.view()) == es,
                Err(x) => r == Err::<(&[u8], SipHeaders), SipParseError>(x),
            },
            r matches Ok((rest, hs)) ==> {
                &&& is_suffix_of(rest@, input@)
                &&& input@.subrange(0, input@.len() - rest@.len()) + rest@ == input@
                &&& rest@.len() >= 2 && rest@[0] == 0x0Du8 && rest@[1] == 0x0Au8
                &&& entries_ok(hs.view(), input@)
            },
            input@.len() == 0 ==> r == Err::<(&[u8], SipHeaders), SipParseError>(SipParseError::UnexpectedEof),
            input@.len() >= 2 && input@[0] == 0x0Du8 && input@[1] == 0x0Au8 ==> (r matches Ok((rest, hs))
                && rest@ == input@ && hs.view().len() == 0),
    {
        let mut entries: Vec<Header<'a>> = Vec::new();
        if input.len() == 0 {
            proof {
                reveal(spec_line);
            }
            return Err(SipParseError::UnexpectedEof);
        }
        let mut pos: usize = 0;
        assert(entries_view(entries@) =~= Seq::<(NameView, EntryView)>::empty());
        loop
            invariant
                pos <= input@.len(),
                input@.len() > 0,
                entries_ok(entries@, input@),
                pos == 0 ==> entries@.len() == 0,
                pos > 0 ==> !(input@.len() >= 2 && input@[0] == 0x0Du8 && input@[1] == 0x0Au8),
                match spec_headers(input@, 0) {
                    Ok((whole, rp)) => match spec_headers(input@, pos as int) {
                        Ok((t, rp2)) => whole == entries_view(entries@) + t && rp2 == rp,
                        Err(_) => false,
                    },
                    Err(x) => spec_headers(input@, pos as int) == Err::<
                        (Seq<(NameView, EntryView)>, int),
                        SipParseError,
                    >(x),
                },
            decreases input@.len() - pos,
        {
            if input.len() - pos >= 2 && input[pos] == 0x0Du8 && input[pos + 1] == 0x0Au8 {
                let rest = slice_at(input, pos, input.len());
                proof {
                    assert(entries_view(entries@) + Seq::<(NameView, EntryView)>::empty() =~= entries_view(entries@));
                    assert(input@.subrange(0, input@.len() - rest@.len()) + rest@ =~= input@);
                    assert(pos == 0 ==> rest@ =~= input@);
                }
                return Ok((rest, SipHeaders { entries }));
            }
            let ghost before = entries_view(entries@);
            let np = parse_line(input, pos, &mut entries)?;
            proof {
                let es = spec_line(input@, pos as int)->Ok_0.0;
                match spec_headers(input@, np as int) {
                    Ok((t, _)) => {
                        assert(before + (es + t) =~= entries_view(entries@) + t);
                    },
                    Err(_) => {},
                }
            }
            pos = np;
        }
    }
}

/// Reads the header line at `pos` into `entries`; returns the index after its CRLF.
fn parse_line<'a>(input: &'a [u8], pos: usize, entries: &mut Vec<Header<'a>>) -> (r: Result<usize, SipParseError>)
    requires
        pos <= input@.len(),
        entries_ok(old(entries)@, input@),
    ensures
        entries_ok(final(entries)@, input@),
        match spec_line(input@, pos as int) {
            Ok((es, np)) => r == Ok::<usize, SipParseError>(np as usize) && pos < np <= input@.len()
                && entries_view(final(entries)@) == entries_view(old(entries)@) + es,
            Err(x) => r == Err::<usize, SipParseError>(x),
        },
{
    reveal(spec_line);
    let ne = run_at(input, pos, input.len(), ByteClass::TokenChar);
    if ne == pos {
        if pos == input.len() {
            return Err(SipParseError::UnexpectedEof);
        }
        return Err(SipParseError::InvalidToken);
    }
    let name = slice_at(input, pos, ne);
    let c = sws_at(input, ne);
    if c >= input.len() || input[c] != 0x3Au8 {
        return Err(SipParseError::ExpectedLiteral(0x3Au8));
    }
    let ve = line_end(input, c + 1);
    if ve == input.len() {
        return Err(SipParseError::UnexpectedEof);
    }
    let v = slice_at(input, c + 1, ve);
    let ghost before = entries_view(entries@);
    match SipRFCHeader::from_bytes(name) {
        Some(h) => {
            assert(names_match(HeaderName::Rfc(h), name@));
            if is_foldable(h) {
                fold_value(h, name, input, v, entries)?;
            } else {
                let (value, params) = parse_entry(Some(h), v, 0, v.len())?;
                let e = Header { name: HeaderName::Rfc(h), value, params };
                proof {
                    lemma_value_lift(value, params, v@, input@);
                }
                push_entry(entries, e, input);
                assert(entries_view(entries@) =~= before + seq![(name_view(e.name), entry_view(e.value, e.params))]);
            }
        },
        None => {
            assert(names_match(HeaderName::Extension(name), name@));
            let (value, params) = parse_entry(None, v, 0, v.len())?;
            let e = Header { name: HeaderName::Extension(name), value, params };
            proof {
                lemma_value_lift(value, params, v@, input@);
            }
            push_entry(entries, e, input);
            assert(entries_view(entries@) =~= before + seq![(name_view(e.name), entry_view(e.value, e.params))]);
        },
    }
    Ok(ve + 2)
}

/// Reads the entries of a foldable header's value `v` into `entries`.
fn fold_value<'a>(h: SipRFCHeader, name: &'a [u8], input: &'a [u8], v: &'a [u8], entries: &mut Vec<Header<'a>>) -> (r: Result<(), SipParseError>)
    requires
        is_slice_of(v@, input@),
        is_slice_of(name@, input@),
        names_match(HeaderName::Rfc(h), name@),
        entries_ok(old(entries)@, input@),
    ensures
        entries_ok(final(entries)@, input@),
        match spec_fold(h, v@, 0) {
            Ok(es) => r is Ok && entries_view(final(entries)@) == entries_view(old(entries)@) + es,
            Err(x) => r == Err::<(), SipParseError>(x),
        },
{
    reveal(spec_fold);
    let ghost start = entries_view(entries@);
    let mut k: usize = 0;
    assert(start + Seq::<(NameView, EntryView)>::empty() =~= start);
    loop
        invariant
            k <= v@.len(),
            is_slice_of(v@, input@),
            is_slice_of(name@, input@),
            names_match(HeaderName::Rfc(h), name@),
            entries_ok(entries@, input@),
            entries_view(entries@).len() >= start.len(),
            start == entries_view(old(entries)@),
            match spec_fold(h, v@, 0) {
                Ok(whole) => match spec_fold(h, v@, k as int) {
                    Ok(t) => start + whole == entries_view(entries@) + t,
                    Err(_) => false,
                },
                Err(x) => spec_fold(h, v@, k as int) == Err::<Seq<(NameView, EntryView)>, SipParseError>(x),
            },
        decreases v@.len() - k,
    {
        proof {
            reveal(spec_fold);
        }
        let comma = find_top(v, k, v.len(), 0x2Cu8);
        let ghost before = entries_view(entries@);
        if skip_ws(v, k, comma) < comma {
            let seg = slice_at(v, k, comma);
            let (value, params) = parse_entry(Some(h), seg, 0, seg.len())?;
            let e = Header { name: HeaderName::Rfc(h), value, params };
            proof {
                lemma_slice_trans(seg@, v@, input@);
                lemma_value_lift(value, params, seg@, input@);
            }
            push_entry(entries, e, input);
        }
        proof {
            let here = spec_fold(h, v@, k as int);
            let t1 = if ws_end(v@, k as int, comma as int) < comma {
                seq![(NameView::Rfc(h), spec_entry(Some(h), v@.subrange(k as int, comma as int), 0, (comma - k) as int)->Ok_0)]
            } else {
                Seq::<(NameView, EntryView)>::empty()
            };
            assert(entries_view(entries@) =~= before + t1);
            if comma < v.len() {
                match spec_fold(h, v@, comma + 1) {
                    Ok(t2) => {
                        assert(before + (t1 + t2) =~= entries_view(entries@) + t2);
                    },
                    Err(_) => {},
                }
            } else {
                assert(before + t1 + Seq::<(NameView, EntryView)>::empty() =~= entries_view(entries@));
            }
        }
        if comma == v.len() {
            return Ok(());
        }
        k = comma + 1;
    }
}

fn same_name(a: &HeaderName, b: &HeaderName) -> (r: bool)
    ensures
        r == same_key(*a, *b),
{
    match (a, b) {
        (HeaderName::Rfc(x), HeaderName::Rfc(y)) => *x == *y,
        (HeaderName::Extension(x), HeaderName::Extension(y)) => eq_ignore_case(x, y),
        _ => false,
    }
}



/// The entries of one line whose name stands for `h` and whose value is `v`.
pub open spec fn line_entries(h: SipRFCHeader, v: Seq<u8>) -> Result<Seq<(NameView, EntryView)>, SipParseError> {
    if spec_is_foldable(h) {
        spec_fold(h, v, 0)
    } else {
        match spec_entry(Some(h), v, 0, v.len() as int) {
            Ok(ev) => Ok(seq![(NameView::Rfc(h), ev)]),
            Err(x) => Err(x),
        }
    }
}

/// A name of token characters.
pub open spec fn is_token_name(n: Seq<u8>) -> bool {
    n.len() > 0 && forall|k: int| 0 <= k < n.len() ==> ByteClass::TokenChar.spec_holds(#[trigger] n[k])
}

/// A value that holds no CR, so no line ends inside it.
pub open spec fn no_cr(v: Seq<u8>) -> bool {
    forall|k: int| 0 <= k < v.len() ==> #[trigger] v[k] != 0x0Du8
}

/// The entries of the header section `s`, without where it ends.
pub open spec fn section_entries(s: Seq<u8>) -> Result<Seq<(NameView, EntryView)>, SipParseError> {
    match spec_headers(s, 0) {
        Ok((es, _)) => Ok(es),
        Err(x) => Err(x),
    }
}

pub open spec fn crlf() -> Seq<u8> {
    seq![0x0Du8, 0x0Au8]
}

/// The line `n ":" v CRLF`.
pub open spec fn header_line(n: Seq<u8>, v: Seq<u8>) -> Seq<u8> {
    n + seq![0x3Au8] + v + crlf()
}

/// A line `n ":" v CRLF` at `pos`, not followed by WSP, is read as the entries of `v` under
/// the header that `n` stands for.
proof fn lemma_line(s: Seq<u8>, pos: int, n: Seq<u8>, v: Seq<u8>, h: SipRFCHeader)
    requires
        0 <= pos,
        pos + n.len() + v.len() + 3 <= s.len(),
        s.subrange(pos, pos + n.len() + v.len() + 3) == header_line(n, v),
        pos + n.len() + v.len() + 3 == s.len() || !spec_is_wsp(s[pos + n.len() + v.len() + 3]),
        is_token_name(n),
        no_cr(v),
        spec_rfc_header_of(n) == Some(h),
    ensures
        spec_line(s, pos) == match line_entries(h, v) {
            Ok(es) => Ok::<(Seq<(NameView, EntryView)>, int), SipParseError>((es, pos + n.len() + v.len() + 3)),
            Err(x) => Err(x),
        },
{
    reveal(spec_line);
    let l = n.len() as int;
    let e = pos + l + 1 + v.len();
    let line = header_line(n, v);
    assert forall|k: int| 0 <= k < line.len() implies s[pos + k] == #[trigger] line[k] by {
        assert(s.subrange(pos, pos + line.len())[k] == line[k]);
    }
    assert(line[l] == 0x3Au8);
    assert forall|k: int| pos <= k < pos + l implies ByteClass::TokenChar.spec_holds(#[trigger] s[k]) by {
        assert(line[k - pos] == n[k - pos]);
        assert(s[pos + (k - pos)] == line[k - pos]);
    }
    assert(s[pos + l] == 0x3Au8);
    crate::lexer::lemma_run_end(s, ByteClass::TokenChar, pos, s.len() as int, pos + l);
    assert(sws_end(s, pos + l) == pos + l);
    assert forall|k: int| pos + l + 1 <= k < e implies !is_line_end(s, k) by {
        assert(line[k - pos] == v[k - pos - l - 1]);
        assert(s[pos + (k - pos)] == line[k - pos]);
    }
    assert(line[l + 1 + v.len()] == 0x0Du8);
    assert(line[l + 2 + v.len()] == 0x0Au8);
    assert(s[pos + (l + 1 + v.len())] == line[l + 1 + v.len()]);
    assert(s[pos + (l + 2 + v.len())] == line[l + 2 + v.len()]);
    assert(is_line_end(s, e));
    lemma_line_end(s, pos + l + 1, e);
    assert(s.subrange(pos, pos + l) =~= n) by {
        assert forall|k: int| 0 <= k < l implies s.subrange(pos, pos + l)[k] == n[k] by {
            assert(line[k] == n[k]);
            assert(s[pos + k] == line[k]);
        }
    }
    assert(s.subrange(pos + l + 1, e) =~= v) by {
        assert forall|k: int| 0 <= k < v.len() implies s.subrange(pos + l + 1, e)[k] == v[k] by {
            assert(line[l + 1 + k] == v[k]);
            assert(s[pos + (l + 1 + k)] == line[l + 1 + k]);
        }
    }
}

proof fn lemma_one_line_section(n: Seq<u8>, v: Seq<u8>, h: SipRFCHeader)
    requires
        is_token_name(n),
        no_cr(v),
        spec_rfc_header_of(n) == Some(h),
    ensures
        section_entries(header_line(n, v) + crlf()) == line_entries(h, v),
{
    let line = header_line(n, v);
    let s = line + crlf();
    let l = line.len() as int;
    assert(s.subrange(0, l) =~= line);
    assert(s[l] == 0x0Du8);
    assert(s[l + 1] == 0x0Au8);
    assert(s[0] == n[0]);
    assert(ByteClass::TokenChar.spec_holds(n[0]));
    lemma_line(s, 0, n, v, h);
    assert(spec_headers(s, l) == Ok::<(Seq<(NameView, EntryView)>, int), SipParseError>((Seq::empty(), l)));
    match line_entries(h, v) {
        Ok(es) => {
            assert(es + Seq::<(NameView, EntryView)>::empty() =~= es);
        },
        Err(_) => {},
    }
}

/// Names that stand for the same RFC header read the same: the sections
/// `n1 ":" v CRLF CRLF` and `n2 ":" v CRLF CRLF` give the same entries, or the same error. This
/// covers names that differ only in the case of their letters, and a compact alias against its
/// long form.
pub proof fn lemma_same_header_same_entries(n1: Seq<u8>, n2: Seq<u8>, v: Seq<u8>)
    requires
        is_token_name(n1),
        is_token_name(n2),
        spec_rfc_header_of(n1) is Some,
        spec_rfc_header_of(n1) == spec_rfc_header_of(n2),
        no_cr(v),
    ensures
        section_entries(header_line(n1, v) + crlf()) == section_entries(header_line(n2, v) + crlf()),
{
    let h = spec_rfc_header_of(n1)->Some_0;
    lemma_one_line_section(n1, v, h);
    lemma_one_line_section(n2, v, h);
}

/// Header names that differ only in case give the same entries.
pub proof fn lemma_name_case_same_entries(n1: Seq<u8>, n2: Seq<u8>, v: Seq<u8>)
    requires
        is_token_name(n1),
        is_token_name(n2),
        spec_lower(n1) == spec_lower(n2),
        spec_rfc_header_of(n1) is Some,
        no_cr(v),
    ensures
        section_entries(header_line(n1, v) + crlf()) == section_entries(header_line(n2, v) + crlf()),
{
    crate::header_name::lemma_rfc_header_of_ignores_case(n1, n2);
    lemma_same_header_same_entries(n1, n2, v);
}

/// The compact alias `c` and `Content-Type` give the same entries.
pub proof fn lemma_compact_alias_same_entries(v: Seq<u8>)
    requires
        no_cr(v),
    ensures
        section_entries(header_line(seq![0x63u8], v) + crlf()) == section_entries(
            header_line(
                seq![0x43u8, 0x6Fu8, 0x6Eu8, 0x74u8, 0x65u8, 0x6Eu8, 0x74u8, 0x2Du8, 0x54u8, 0x79u8, 0x70u8, 0x65u8],
                v,
            ) + crlf(),
        ),
{
    crate::header_name::lemma_compact_content_type();
    let long = seq![0x43u8, 0x6Fu8, 0x6Eu8, 0x74u8, 0x65u8, 0x6Eu8, 0x74u8, 0x2Du8, 0x54u8, 0x79u8, 0x70u8, 0x65u8];
    assert(is_token_name(long)) by {
        assert forall|k: int| 0 <= k < long.len() implies ByteClass::TokenChar.spec_holds(#[trigger] long[k]) by {
        }
    }
    assert(is_token_name(seq![0x63u8]));
    lemma_same_header_same_entries(seq![0x63u8], long, v);
}

/// Octets that hold no comma, quote, angle bracket or CR.
pub open spec fn is_plain(a: Seq<u8>) -> bool {
    forall|k: int| 0 <= k < a.len() ==> {
        let c = #[trigger] a[k];
        c != 0x2Cu8 && c != 0x22u8 && c != 0x3Cu8 && c != 0x3Eu8 && c != 0x0Du8
    }
}

/// ` <a>`: a value in angle brackets after a space.
pub open spec fn angled(a: Seq<u8>) -> Seq<u8> {
    seq![0x20u8, 0x3Cu8] + a + seq![0x3Eu8]
}

pub open spec fn then_entries(
    r1: Result<Seq<(NameView, EntryView)>, SipParseError>,
    r2: Result<Seq<(NameView, EntryView)>, SipParseError>,
) -> Result<Seq<(NameView, EntryView)>, SipParseError> {
    match r1 {
        Err(x) => Err(x),
        Ok(t1) => match r2 {
            Ok(t2) => Ok(t1 + t2),
            Err(y) => Err(y),
        },
    }
}

proof fn lemma_angle_state(s: Seq<u8>, i: int, k0: int, k: int)
    requires
        0 <= i <= k0 <= k <= s.len(),
        scan_state(s, i, k0) == crate::lexer::QState::InAngle,
        forall|m: int| k0 <= m < k ==> #[trigger] s[m] != 0x3Eu8,
    ensures
        scan_state(s, i, k) == crate::lexer::QState::InAngle,
    decreases k - k0,
{
    if k > k0 {
        lemma_angle_state(s, i, k0, k - 1);
        assert(scan_state(s, i, k) == crate::lexer::q_step(scan_state(s, i, k - 1), s, k - 1));
    }
}

/// A value with no comma at or after `k` is one part.
proof fn lemma_fold_last(h: SipRFCHeader, v: Seq<u8>, k: int)
    requires
        0 <= k < v.len(),
        forall|m: int| k <= m < v.len() ==> #[trigger] v[m] != 0x2Cu8,
        v[k] == 0x20u8,
        !spec_is_ws(v[k + 1]),
        k + 1 < v.len(),
    ensures
        spec_fold(h, v, k) == match spec_entry(Some(h), v.subrange(k, v.len() as int), 0, v.len() - k) {
            Ok(ev) => Ok::<Seq<(NameView, EntryView)>, SipParseError>(seq![(NameView::Rfc(h), ev)]),
            Err(x) => Err(x),
        },
{
    reveal(spec_fold);
    crate::lexer::lemma_top_find(v, k, k, v.len() as int, 0x2Cu8, v.len() as int);
    crate::lexer::lemma_ws_end(v, k, v.len() as int, k + 1);
}

proof fn lemma_fold_angled(h: SipRFCHeader, a: Seq<u8>, b: Seq<u8>)
    requires
        is_plain(a),
        is_plain(b),
    ensures
        spec_fold(h, angled(a), 0) == match spec_entry(Some(h), angled(a), 0, angled(a).len() as int) {
            Ok(ev) => Ok::<Seq<(NameView, EntryView)>, SipParseError>(seq![(NameView::Rfc(h), ev)]),
            Err(x) => Err(x),
        },
        spec_fold(h, angled(a) + seq![0x2Cu8] + angled(b), 0) == then_entries(
            spec_fold(h, angled(a), 0),
            spec_fold(h, angled(b), 0),
        ),
{
    let wa = angled(a);
    let wb = angled(b);
    assert forall|m: int| 0 <= m < wa.len() implies #[trigger] wa[m] != 0x2Cu8 by {
        if 2 <= m < 2 + a.len() {
            assert(wa[m] == a[m - 2]);
        }
    }
    assert forall|m: int| 0 <= m < wb.len() implies #[trigger] wb[m] != 0x2Cu8 by {
        if 2 <= m < 2 + b.len() {
            assert(wb[m] == b[m - 2]);
        }
    }
    assert(wa.subrange(0, wa.len() as int) =~= wa);
    assert(wb.subrange(0, wb.len() as int) =~= wb);
    lemma_fold_last(h, wa, 0);
    lemma_fold_last(h, wb, 0);
    let v = wa + seq![0x2Cu8] + wb;
    let c = wa.len() as int;
    assert forall|m: int| 0 <= m < c implies #[trigger] v[m] != 0x2Cu8 by {
        assert(v[m] == wa[m]);
    }
    assert forall|m: int| c + 1 <= m < v.len() implies #[trigger] v[m] != 0x2Cu8 by {
        assert(v[m] == wb[m - c - 1]);
    }
    // the comma after `<a>` is read at top level
    assert(v[0] == 0x20u8 && v[1] == 0x3Cu8);
    assert(scan_state(v, 0, 1) == crate::lexer::q_step(scan_state(v, 0, 0), v, 0));
    assert(scan_state(v, 0, 2) == crate::lexer::q_step(scan_state(v, 0, 1), v, 1));
    assert forall|m: int| 2 <= m < 2 + a.len() implies #[trigger] v[m] != 0x3Eu8 by {
        assert(v[m] == a[m - 2]);
    }
    lemma_angle_state(v, 0, 2, 2 + a.len() as int);
    assert(v[2 + a.len() as int] == 0x3Eu8);
    assert(scan_state(v, 0, c) == crate::lexer::q_step(scan_state(v, 0, c - 1), v, c - 1));
    assert(v[c] == 0x2Cu8);
    assert(is_top_sep(v, 0, c, 0x2Cu8));
    assert forall|m: int| 0 <= m < c implies !is_top_sep(v, 0, m, 0x2Cu8) by {
        assert(v[m] != 0x2Cu8);
    }
    crate::lexer::lemma_top_find(v, 0, 0, v.len() as int, 0x2Cu8, c);
    crate::lexer::lemma_ws_end(v, 0, c, 1);
    assert(v.subrange(0, c) =~= wa);
    assert(v[c + 1] == 0x20u8);
    assert(v[c + 2] == 0x3Cu8);
    lemma_fold_last(h, v, c + 1);
    assert(v.subrange(c + 1, v.len() as int) =~= wb);
    reveal(spec_fold);
    match spec_entry(Some(h), wa, 0, wa.len() as int) {
        Ok(_) => {},
        Err(_) => {},
    }
}

/// Comma folding: for a foldable header, the section `n ": <a>, <b>" CRLF CRLF` and the section
/// with the two lines `n ": <a>" CRLF n ": <b>" CRLF CRLF` give the same entries, in the same
/// order (or the same error), where `a` and `b` hold no comma, quote, angle bracket or CR.
pub proof fn lemma_comma_folding(n: Seq<u8>, a: Seq<u8>, b: Seq<u8>)
    requires
        is_token_name(n),
        spec_rfc_header_of(n) matches Some(h) && spec_is_foldable(h),
        is_plain(a),
        is_plain(b),
    ensures
        section_entries(header_line(n, angled(a) + seq![0x2Cu8] + angled(b)) + crlf())
            == section_entries(header_line(n, angled(a)) + header_line(n, angled(b)) + crlf()),
{
    let h = spec_rfc_header_of(n)->Some_0;
    let wa = angled(a);
    let wb = angled(b);
    let v = wa + seq![0x2Cu8] + wb;
    lemma_fold_angled(h, a, b);
    assert(no_cr(v)) by {
        assert forall|k: int| 0 <= k < v.len() implies #[trigger] v[k] != 0x0Du8 by {
            if 2 <= k < 2 + a.len() {
                assert(v[k] == a[k - 2]);
            } else if wa.len() + 3 <= k < wa.len() + 3 + b.len() {
                assert(v[k] == b[k - wa.len() - 3]);
            }
        }
    }
    assert(no_cr(wa)) by {
        assert forall|k: int| 0 <= k < wa.len() implies #[trigger] wa[k] != 0x0Du8 by {
            if 2 <= k < 2 + a.len() {
                assert(wa[k] == a[k - 2]);
            }
        }
    }
    assert(no_cr(wb)) by {
        assert forall|k: int| 0 <= k < wb.len() implies #[trigger] wb[k] != 0x0Du8 by {
            if 2 <= k < 2 + b.len() {
                assert(wb[k] == b[k - 2]);
            }
        }
    }
    // one line
    lemma_one_line_section(n, v, h);
    // two lines
    let l1 = header_line(n, wa);
    let l2 = header_line(n, wb);
    let s = l1 + l2 + crlf();
    let p1 = l1.len() as int;
    let p2 = p1 + l2.len();
    assert(s.subrange(0, p1) =~= l1);
    assert(s.subrange(p1, p2) =~= l2);
    assert(s[p1] == n[0]);
    assert(ByteClass::TokenChar.spec_holds(n[0]));
    assert(s[p2] == 0x0Du8);
    assert(s[p2 + 1] == 0x0Au8);
    assert(s[0] == n[0]);
    lemma_line(s, 0, n, wa, h);
    lemma_line(s, p1, n, wb, h);
    assert(spec_headers(s, p2) == Ok::<(Seq<(NameView, EntryView)>, int), SipParseError>((Seq::empty(), p2)));
    assert(spec_headers(s, p1) == match line_entries(h, wb) {
        Ok(es) => Ok::<(Seq<(NameView, EntryView)>, int), SipParseError>((es + Seq::empty(), p2)),
        Err(x) => Err(x),
    });
    match line_entries(h, wa) {
        Ok(t1) => match line_entries(h, wb) {
            Ok(t2) => {
                assert(t2 + Seq::<(NameView, EntryView)>::empty() =~= t2);
            },
            Err(_) => {},
        },
        Err(_) => {},
    }
}

} // verus!
