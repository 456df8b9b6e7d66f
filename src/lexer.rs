//! Index-based helpers over a header value: whitespace, runs, trimming, the quote/angle state
//! machine that finds separators, and the generic parameter list.
use vstd::prelude::*;
use crate::bnfcore::{is_wsp, spec_is_wsp, ByteClass};
use crate::bytes::{is_slice_of, lemma_slice_of_sub, lemma_slice_trans};
use crate::errorparse::SipParseError;
use crate::header::{params_within, GenericParams};
use crate::nom_calls::take_while;
use crate::nom_wrappers::{
    lemma_sws_end_bounds, lemma_sws_end_shift, spec_quoted_string, sws_end, take_qutoed_string,
    take_sws,
};

verus! {

/// Where a scan stands with respect to quoted strings and angle brackets.
#[derive(Clone, Copy, Debug, PartialEq, Eq, Structural)]
pub enum QState {
    TopLevel,
    InQuote,
    InAngle,
}

pub open spec fn q_step(st: QState, s: Seq<u8>, k: int) -> QState {
    match st {
        QState::TopLevel => if s[k] == 0x22u8 {
            QState::InQuote
        } else if s[k] == 0x3Cu8 {
            QState::InAngle
        } else {
            QState::TopLevel
        },
        QState::InQuote => if s[k] == 0x22u8 && (k == 0 || s[k - 1] != 0x5Cu8) {
            QState::TopLevel
        } else {
            QState::InQuote
        },
        QState::InAngle => if s[k] == 0x3Eu8 {
            QState::TopLevel
        } else {
            QState::InAngle
        },
    }
}

/// The state in which the octet at `k` is read, for a scan that starts at `i`.
pub open spec fn scan_state(s: Seq<u8>, i: int, k: int) -> QState
    decreases k - i,
{
    if k <= i {
        QState::TopLevel
    } else {
        q_step(scan_state(s, i, k - 1), s, k - 1)
    }
}

/// The octet at `k` is `c` and, for a scan from `i`, stands outside every quoted string and
/// angle bracket.
pub open spec fn is_top_sep(s: Seq<u8>, i: int, k: int, c: u8) -> bool {
    i <= k < s.len() && s[k] == c && scan_state(s, i, k) == QState::TopLevel
}

/// A comma inside a quoted string never separates entries: after a DQUOTE read at top level,
/// every octet up to the closing quote is read in the quoted state, so no comma there is a
/// top-level separator.
pub proof fn lemma_quoted_comma_never_splits(s: Seq<u8>, i: int, q: int, k: int)
    requires
        0 <= i <= q < k < s.len(),
        scan_state(s, i, q) == QState::TopLevel,
        s[q] == 0x22u8,
        forall|m: int| q < m < k ==> !(s[m] == 0x22u8 && #[trigger] s[m - 1] != 0x5Cu8),
    ensures
        scan_state(s, i, k) == QState::InQuote,
        !is_top_sep(s, i, k, 0x2Cu8),
    decreases k - q,
{
    let prev = scan_state(s, i, k - 1);
    assert(scan_state(s, i, k) == q_step(prev, s, k - 1));
    if k == q + 1 {
        assert(prev == QState::TopLevel);
        assert(q_step(QState::TopLevel, s, q) == QState::InQuote);
    } else {
        lemma_quoted_comma_never_splits(s, i, q, k - 1);
        let m = k - 1;
        assert(!(s[m] == 0x22u8 && s[m - 1] != 0x5Cu8));
        assert(prev == QState::InQuote);
        assert(q_step(QState::InQuote, s, m) == QState::InQuote);
    }
}

/// Whitespace that may surround a value: WSP, CR or LF.
pub open spec fn spec_is_ws(c: u8) -> bool {
    spec_is_wsp(c) || c == 0x0Du8 || c == 0x0Au8
}

fn step(st: QState, s: &[u8], k: usize) -> (r: QState)
    requires
        k < s@.len(),
    ensures
        r == q_step(st, s@, k as int),
{
    match st {
        QState::TopLevel => if s[k] == 0x22u8 {
            QState::InQuote
        } else if s[k] == 0x3Cu8 {
            QState::InAngle
        } else {
            QState::TopLevel
        },
        QState::InQuote => if s[k] == 0x22u8 && (k == 0 || s[k - 1] != 0x5Cu8) {
            QState::TopLevel
        } else {
            QState::InQuote
        },
        QState::InAngle => if s[k] == 0x3Eu8 {
            QState::TopLevel
        } else {
            QState::InAngle
        },
    }
}

/// The first `c` in `[k, j)` that a scan from `i` reads at top level, or `j`.
pub open spec fn top_find(s: Seq<u8>, i: int, k: int, j: int, c: u8) -> int
    decreases j - k,
{
    if k >= j {
        j
    } else if is_top_sep(s, i, k, c) {
        k
    } else {
        top_find(s, i, k + 1, j, c)
    }
}

pub proof fn lemma_top_find(s: Seq<u8>, i: int, k: int, j: int, c: u8, r: int)
    requires
        k <= r <= j,
        forall|m: int| k <= m < r ==> !is_top_sep(s, i, m, c),
        r == j || is_top_sep(s, i, r, c),
    ensures
        top_find(s, i, k, j, c) == r,
    decreases r - k,
{
    if k < r {
        lemma_top_find(s, i, k + 1, j, c, r);
    }
}

/// The first `c` in `[i, j)` that stands outside quotes and angle brackets, or `j`.
pub fn find_top(s: &[u8], i: usize, j: usize, c: u8) -> (r: usize)
    requires
        i <= j <= s@.len(),
    ensures
        i <= r <= j,
        r < j ==> is_top_sep(s@, i as int, r as int, c),
        forall|k: int| i <= k < r ==> !is_top_sep(s@, i as int, k, c),
        r == top_find(s@, i as int, i as int, j as int, c),
{
    let mut st = QState::TopLevel;
    let mut k: usize = i;
    while k < j
        invariant
            i <= k <= j <= s@.len(),
            st == scan_state(s@, i as int, k as int),
            forall|m: int| i <= m < k ==> !is_top_sep(s@, i as int, m, c),
        decreases j - k,
    {
        if s[k] == c && st == QState::TopLevel {
            proof {
                lemma_top_find(s@, i as int, i as int, j as int, c, k as int);
            }
            return k;
        }
        st = step(st, s, k);
        k += 1;
    }
    proof {
        lemma_top_find(s@, i as int, i as int, j as int, c, j as int);
    }
    j
}

/// The end of the run of `cls` from `i`, no further than `j`.
pub open spec fn run_end(s: Seq<u8>, cls: ByteClass, i: int, j: int) -> int
    decreases j - i,
{
    if i >= j || !cls.spec_holds(s[i]) {
        i
    } else {
        run_end(s, cls, i + 1, j)
    }
}

/// The end of the whitespace (WSP, CR, LF) from `i`, no further than `j`.
pub open spec fn ws_end(s: Seq<u8>, i: int, j: int) -> int
    decreases j - i,
{
    if i >= j || !spec_is_ws(s[i]) {
        i
    } else {
        ws_end(s, i + 1, j)
    }
}

/// The start of the whitespace (WSP, CR, LF) that ends `[i, j)`.
pub open spec fn ws_back(s: Seq<u8>, i: int, j: int) -> int
    decreases j - i,
{
    if j <= i || !spec_is_ws(s[j - 1]) {
        j
    } else {
        ws_back(s, i, j - 1)
    }
}

/// The first `c` in `[i, j)`, or `j`.
pub open spec fn byte_find(s: Seq<u8>, i: int, j: int, c: u8) -> int
    decreases j - i,
{
    if i >= j || s[i] == c {
        i
    } else {
        byte_find(s, i + 1, j, c)
    }
}

pub proof fn lemma_run_end(s: Seq<u8>, cls: ByteClass, i: int, j: int, r: int)
    requires
        0 <= i <= r <= j <= s.len(),
        forall|k: int| i <= k < r ==> cls.spec_holds(#[trigger] s[k]),
        r == j || !cls.spec_holds(s[r]),
    ensures
        run_end(s, cls, i, j) == r,
    decreases r - i,
{
    if i < r {
        lemma_run_end(s, cls, i + 1, j, r);
    }
}

pub proof fn lemma_ws_end(s: Seq<u8>, i: int, j: int, r: int)
    requires
        0 <= i <= r <= j <= s.len(),
        forall|k: int| i <= k < r ==> spec_is_ws(#[trigger] s[k]),
        r == j || !spec_is_ws(s[r]),
    ensures
        ws_end(s, i, j) == r,
    decreases r - i,
{
    if i < r {
        lemma_ws_end(s, i + 1, j, r);
    }
}

pub proof fn lemma_ws_back(s: Seq<u8>, i: int, j: int, r: int)
    requires
        0 <= i <= r <= j <= s.len(),
        forall|k: int| r <= k < j ==> spec_is_ws(#[trigger] s[k]),
        r == i || !spec_is_ws(s[r - 1]),
    ensures
        ws_back(s, i, j) == r,
    decreases j - r,
{
    if r < j {
        lemma_ws_back(s, i, j - 1, r);
    }
}

pub proof fn lemma_byte_find(s: Seq<u8>, i: int, j: int, c: u8, r: int)
    requires
        0 <= i <= r <= j <= s.len(),
        forall|k: int| i <= k < r ==> s[k] != c,
        r == j || s[r] == c,
    ensures
        byte_find(s, i, j, c) == r,
    decreases r - i,
{
    if i < r {
        lemma_byte_find(s, i + 1, j, c, r);
    }
}

/// A slice of `s` that is known to lie in it.
pub fn slice_at<'a>(s: &'a [u8], i: usize, j: usize) -> (r: &'a [u8])
    requires
        i <= j <= s@.len(),
    ensures
        r@ == s@.subrange(i as int, j as int),
        is_slice_of(r@, s@),
{
    proof {
        lemma_slice_of_sub(s@, i as int, j as int);
    }
    &s[i..j]
}

/// The end of the SWS that starts at `i`.
pub fn sws_at(s: &[u8], i: usize) -> (r: usize)
    requires
        i <= s@.len(),
    ensures
        r == sws_end(s@, i as int),
        i <= r <= s@.len(),
{
    let (_, sp) = take_sws(slice_at(s, i, s.len()));
    proof {
        lemma_sws_end_shift(s@, i as int);
        lemma_sws_end_bounds(s@, i as int);
    }
    i + sp.len()
}

/// The end of the run of `cls` that starts at `i`, no further than `j`.
pub fn run_at(s: &[u8], i: usize, j: usize, cls: ByteClass) -> (r: usize)
    requires
        i <= j <= s@.len(),
    ensures
        i <= r <= j,
        forall|k: int| i <= k < r ==> cls.spec_holds(#[trigger] s@[k]),
        r == j || !cls.spec_holds(s@[r as int]),
        r == run_end(s@, cls, i as int, j as int),
{
    let sub = slice_at(s, i, j);
    let (_, t) = take_while(sub, cls).unwrap();
    let r = i + t.len();
    proof {
        assert forall|k: int| i <= k < r implies cls.spec_holds(#[trigger] s@[k]) by {
            assert(sub@[k - i] == s@[k]);
        }
        if r < j {
            assert(sub@[r - i] == s@[r as int]);
        }
        lemma_run_end(s@, cls, i as int, j as int, r as int);
    }
    r
}

/// Moves `i` forward over whitespace (WSP, CR, LF), no further than `j`.
pub fn skip_ws(s: &[u8], i: usize, j: usize) -> (r: usize)
    requires
        i <= j <= s@.len(),
    ensures
        i <= r <= j,
        forall|k: int| i <= k < r ==> spec_is_ws(#[trigger] s@[k]),
        r == j || !spec_is_ws(s@[r as int]),
        r == ws_end(s@, i as int, j as int),
{
    let mut k: usize = i;
    while k < j && (is_wsp(s[k]) || s[k] == 0x0Du8 || s[k] == 0x0Au8)
        invariant
            i <= k <= j,
            j <= s@.len(),
            forall|m: int| i <= m < k ==> spec_is_ws(#[trigger] s@[m]),
        decreases j - k,
    {
        k += 1;
    }
    proof {
        lemma_ws_end(s@, i as int, j as int, k as int);
    }
    k
}

/// Moves `j` back over whitespace (WSP, CR, LF), no further than `i`.
pub fn trim_back(s: &[u8], i: usize, j: usize) -> (r: usize)
    requires
        i <= j <= s@.len(),
    ensures
        i <= r <= j,
        forall|k: int| r <= k < j ==> spec_is_ws(#[trigger] s@[k]),
        r == i || !spec_is_ws(s@[r - 1]),
        r == ws_back(s@, i as int, j as int),
{
    let mut k: usize = j;
    while k > i && (is_wsp(s[k - 1]) || s[k - 1] == 0x0Du8 || s[k - 1] == 0x0Au8)
        invariant
            i <= k <= j,
            j <= s@.len(),
            forall|m: int| k <= m < j ==> spec_is_ws(#[trigger] s@[m]),
        decreases k - i,
    {
        k -= 1;
    }
    proof {
        lemma_ws_back(s@, i as int, j as int, k as int);
    }
    k
}

/// A quoted string that starts (after optional SWS) at `i`: returns the index after it and
/// its interior.
pub fn quoted_at<'a>(s: &'a [u8], i: usize, j: usize) -> (r: Result<(usize, &'a [u8]), SipParseError>)
    requires
        i <= j <= s@.len(),
    ensures
        r matches Ok((e, q)) ==> i <= e <= j && is_slice_of(q@, s@),
        match spec_quoted_string(s@.subrange(i as int, j as int)) {
            Ok((rest, qq)) => r matches Ok((e, q)) && e == j - rest.len() && q@ == qq,
            Err(x) => r == Err::<(usize, &[u8]), SipParseError>(x),
        },
{
    let t = slice_at(s, i, j);
    match take_qutoed_string(t) {
        Err(e) => Err(e),
        Ok((rest, q)) => {
            proof {
                let a = sws_end(t@, 0);
                lemma_sws_end_bounds(t@, 0);
                let tt = t@.subrange(a + 1, t@.len() as int);
                let k = crate::nom_wrappers::closing_quote_from(tt, 0)->Some_0;
                crate::nom_wrappers::lemma_closing_quote(tt, 0);
                lemma_sws_end_bounds(t@, a + 1 + k + 1);
                lemma_slice_of_sub(tt, 0, k);
                lemma_slice_of_sub(t@, a + 1, t@.len() as int);
                lemma_slice_trans(q@, tt, t@);
                lemma_slice_trans(q@, t@, s@);
            }
            Ok((j - rest.len(), q))
        },
    }
}

pub type ParamView = (Seq<u8>, Option<Seq<u8>>);

pub open spec fn param_view(p: (&[u8], Option<&[u8]>)) -> ParamView {
    (
        p.0@,
        match p.1 {
            Some(v) => Some(v@),
            None => None,
        },
    )
}

pub open spec fn params_view(p: Seq<(&[u8], Option<&[u8]>)>) -> Seq<ParamView> {
    p.map_values(|x: (&[u8], Option<&[u8]>)| param_view(x))
}

/// One `";" SWS name [ SWS "=" SWS value ]` at `a` (which holds the `;`): the parameter and
/// where the scan goes on. A value is a token or a quoted string, whose interior is kept.
pub open spec fn spec_param_item(s: Seq<u8>, a: int, j: int) -> Result<(ParamView, int), SipParseError> {
    let b = ws_end(s, a + 1, j);
    let e = run_end(s, ByteClass::TokenChar, b, j);
    let f = ws_end(s, e, j);
    let g = ws_end(s, f + 1, j);
    let h = run_end(s, ByteClass::ParamChar, g, j);
    let name = s.subrange(b, e);
    if e == b {
        Err(SipParseError::InvalidToken)
    } else if f < j && s[f] == 0x3Du8 {
        if g < j && s[g] == 0x22u8 {
            match spec_quoted_string(s.subrange(g, j)) {
                Err(x) => Err(x),
                Ok((rest, q)) => Ok(((name, Some(q)), j - rest.len())),
            }
        } else {
            Ok(((name, Some(s.subrange(g, h))), h))
        }
    } else {
        Ok(((name, None), f))
    }
}

/// The parameter list `*( SWS ";" SWS name [ SWS "=" SWS value ] )` from `k` to `j`.
pub open spec fn spec_params(s: Seq<u8>, k: int, j: int) -> Result<Seq<ParamView>, SipParseError>
    decreases j - k,
{
    let a = ws_end(s, k, j);
    if k < 0 || k > j || a == j {
        Ok(Seq::empty())
    } else if s[a] != 0x3Bu8 {
        Err(SipParseError::ExpectedLiteral(0x3Bu8))
    } else {
        match spec_param_item(s, a, j) {
            Err(x) => Err(x),
            Ok((it, nk)) => if k < nk <= j && nk != a {
                match spec_params(s, nk, j) {
                    Ok(t) => Ok(seq![it] + t),
                    Err(x) => Err(x),
                }
            } else {
                Err(SipParseError::InvalidToken)
            },
        }
    }
}

fn param_item<'a>(s: &'a [u8], a: usize, j: usize) -> (r: Result<((&'a [u8], Option<&'a [u8]>), usize), SipParseError>)
    requires
        a < j <= s@.len(),
    ensures
        match spec_param_item(s@, a as int, j as int) {
            Ok((it, nk)) => r matches Ok((p, n)) && param_view(p) == it && n == nk && a < n <= j
                && is_slice_of(p.0@, s@) && crate::header::opt_within(p.1, s@),
            Err(x) => r == Err::<((&[u8], Option<&[u8]>), usize), SipParseError>(x),
        },
{
    let b = skip_ws(s, a + 1, j);
    let e = run_at(s, b, j, ByteClass::TokenChar);
    if e == b {
        return Err(SipParseError::InvalidToken);
    }
    let name = slice_at(s, b, e);
    let f = skip_ws(s, e, j);
    if f < j && s[f] == 0x3Du8 {
        let g = skip_ws(s, f + 1, j);
        if g < j && s[g] == 0x22u8 {
            let (h, q) = quoted_at(s, g, j)?;
            Ok(((name, Some(q)), h))
        } else {
            let h = run_at(s, g, j, ByteClass::ParamChar);
            let v = slice_at(s, g, h);
            Ok(((name, Some(v)), h))
        }
    } else {
        Ok(((name, None), f))
    }
}

/// The parameter list `*( SWS ";" SWS name [ SWS "=" SWS value ] )` over `[i, j)`, where `i`
/// is at the first `;` or at `j`. A value is a token or a quoted string (its interior is kept).
pub fn parse_params<'a>(s: &'a [u8], i: usize, j: usize) -> (r: Result<GenericParams<'a>, SipParseError>)
    requires
        i <= j <= s@.len(),
    ensures
        r matches Ok(p) ==> params_within(p@, s@),
        match spec_params(s@, i as int, j as int) {
            Ok(t) => r matches Ok(p) && params_view(p@) == t,
            Err(x) => r == Err::<GenericParams, SipParseError>(x),
        },
{
    let mut out: GenericParams<'a> = Vec::new();
    let mut k: usize = i;
    assert(params_view(out@) =~= Seq::<ParamView>::empty());
    loop
        invariant
            i <= k <= j <= s@.len(),
            params_within(out@, s@),
            match spec_params(s@, i as int, j as int) {
                Ok(whole) => match spec_params(s@, k as int, j as int) {
                    Ok(t) => whole == params_view(out@) + t,
                    Err(_) => false,
                },
                Err(x) => spec_params(s@, k as int, j as int) == Err::<Seq<ParamView>, SipParseError>(x),
            },
        decreases j - k,
    {
        let a = skip_ws(s, k, j);
        if a == j {
            proof {
                assert(params_view(out@) + Seq::<ParamView>::empty() =~= params_view(out@));
            }
            return Ok(out);
        }
        if s[a] != 0x3Bu8 {
            return Err(SipParseError::ExpectedLiteral(0x3Bu8));
        }
        let (item, nk) = param_item(s, a, j)?;
        if nk == a {
            return Err(SipParseError::InvalidToken);
        }
        let ghost before = out@;
        out.push(item);
        proof {
            assert(params_view(out@) =~= params_view(before).push(param_view(item)));
            match spec_params(s@, nk as int, j as int) {
                Ok(t) => {
                    assert(params_view(before) + (seq![param_view(item)] + t) =~= params_view(out@) + t);
                },
                Err(_) => {},
            }
        }
        k = nk;
    }
}

} // verus!
