//! Scanners shared by every header grammar: separator whitespace, escape-aware runs,
//! quoted strings and trimmed runs.
use vstd::prelude::*;
use crate::bnfcore::{is_escaped, is_wsp, spec_is_escaped, spec_is_wsp, ByteClass};
use crate::errorparse::SipParseError;
use crate::nom_calls::{space0, str_from_utf8, take_while1};
use vstd::string::StringSliceAdditionalSpecFns;
use vstd::utf8::valid_utf8;

verus! {

/// The end of the separator whitespace (`SWS = [*WSP CRLF] 1*WSP`, repeated) that starts at
/// `i`. A CRLF that no WSP follows is not taken: it ends the header.
pub open spec fn sws_end(s: Seq<u8>, i: int) -> int
    decreases s.len() - i,
{
    if i < 0 || i >= s.len() {
        i
    } else if spec_is_wsp(s[i]) {
        sws_end(s, i + 1)
    } else if i + 2 < s.len() && s[i] == 0x0Du8 && s[i + 1] == 0x0Au8 && spec_is_wsp(s[i + 2]) {
        sws_end(s, i + 2)
    } else {
        i
    }
}

/// The end of the run from `i` of octets of `cls` and `%HH` escapes.
pub open spec fn escaped_run_end(s: Seq<u8>, cls: ByteClass, i: int) -> int
    decreases s.len() - i,
{
    if i < 0 || i >= s.len() {
        i
    } else if cls.spec_holds(s[i]) {
        escaped_run_end(s, cls, i + 1)
    } else if spec_is_escaped(s.subrange(i, s.len() as int)) {
        escaped_run_end(s, cls, i + 3)
    } else {
        i
    }
}

/// A DQUOTE at `k` that no backslash right before it escapes.
pub open spec fn is_closing_quote(s: Seq<u8>, k: int) -> bool {
    0 <= k < s.len() && s[k] == 0x22u8 && (k == 0 || s[k - 1] != 0x5Cu8)
}

/// A CRLF at `k` that no WSP follows: it ends the header, so no quoted string runs past it.
pub open spec fn is_bare_crlf(s: Seq<u8>, k: int) -> bool {
    0 <= k && k + 1 < s.len() && s[k] == 0x0Du8 && s[k + 1] == 0x0Au8 && (k + 2 == s.len()
        || !spec_is_wsp(s[k + 2]))
}

/// The first closing quote at or after `i`; none when the input or the header (a CRLF that no
/// WSP follows) ends first.
pub open spec fn closing_quote_from(s: Seq<u8>, i: int) -> Option<int>
    decreases s.len() - i,
{
    if i < 0 || i >= s.len() || is_bare_crlf(s, i) {
        None
    } else if is_closing_quote(s, i) {
        Some(i)
    } else {
        closing_quote_from(s, i + 1)
    }
}

/// The longest run of `cls` from `i`.
pub open spec fn class_run_end(s: Seq<u8>, cls: ByteClass, i: int) -> int
    decreases s.len() - i,
{
    if i < 0 || i >= s.len() {
        i
    } else if cls.spec_holds(s[i]) {
        class_run_end(s, cls, i + 1)
    } else {
        i
    }
}

/// Views of a (rest, taken) pair of slices.
pub open spec fn pair_view(r: (&[u8], &[u8])) -> (Seq<u8>, Seq<u8>) {
    (r.0@, r.1@)
}

pub open spec fn result_view(r: Result<(&[u8], &[u8]), SipParseError>) -> Result<
    (Seq<u8>, Seq<u8>),
    SipParseError,
> {
    match r {
        Ok(p) => Ok(pair_view(p)),
        Err(e) => Err(e),
    }
}

/// What `take_qutoed_string` does: optional SWS, a DQUOTE, the interior up to the first closing
/// quote, the DQUOTE, optional SWS. The quote must close before a CRLF that no WSP follows.
pub open spec fn spec_quoted_string(s: Seq<u8>) -> Result<(Seq<u8>, Seq<u8>), SipParseError> {
    let a = sws_end(s, 0);
    if a >= s.len() || s[a] != 0x22u8 {
        Err(SipParseError::ExpectedLiteral(0x22u8))
    } else {
        let t = s.subrange(a + 1, s.len() as int);
        match closing_quote_from(t, 0) {
            None => Err(SipParseError::UnterminatedQuotedString),
            Some(k) => Ok(
                (
                    s.subrange(sws_end(s, a + 1 + k + 1), s.len() as int),
                    t.subrange(0, k),
                ),
            ),
        }
    }
}

/// What `take_while_trim_sws` does: optional SWS, a non-empty run of `cls`, optional SWS.
pub open spec fn spec_trim_sws(s: Seq<u8>, cls: ByteClass) -> Result<
    (Seq<u8>, Seq<u8>),
    SipParseError,
> {
    let a = sws_end(s, 0);
    if a >= s.len() || !cls.spec_holds(s[a]) {
        Err(SipParseError::InvalidToken)
    } else {
        let b = class_run_end(s, cls, a);
        Ok((s.subrange(sws_end(s, b), s.len() as int), s.subrange(a, b)))
    }
}

pub proof fn lemma_sws_end_bounds(s: Seq<u8>, i: int)
    requires
        0 <= i <= s.len(),
    ensures
        i <= sws_end(s, i) <= s.len(),
    decreases s.len() - i,
{
    if i < s.len() {
        if spec_is_wsp(s[i]) {
            lemma_sws_end_bounds(s, i + 1);
        } else if i + 2 < s.len() && s[i] == 0x0Du8 && s[i + 1] == 0x0Au8 && spec_is_wsp(
            s[i + 2],
        ) {
            lemma_sws_end_bounds(s, i + 2);
        }
    }
}

pub proof fn lemma_escaped_run_bounds(s: Seq<u8>, cls: ByteClass, i: int)
    requires
        0 <= i <= s.len(),
    ensures
        i <= escaped_run_end(s, cls, i) <= s.len(),
    decreases s.len() - i,
{
    if i < s.len() {
        if cls.spec_holds(s[i]) {
            lemma_escaped_run_bounds(s, cls, i + 1);
        } else if spec_is_escaped(s.subrange(i, s.len() as int)) {
            lemma_escaped_run_bounds(s, cls, i + 3);
        }
    }
}

pub proof fn lemma_closing_quote(s: Seq<u8>, i: int)
    requires
        0 <= i,
    ensures
        match closing_quote_from(s, i) {
            Some(k) => i <= k < s.len() && is_closing_quote(s, k) && forall|j: int|
                i <= j < k ==> !is_closing_quote(s, j),
            None => true,
        },
    decreases s.len() - i,
{
    if i < s.len() && !is_bare_crlf(s, i) && !is_closing_quote(s, i) {
        lemma_closing_quote(s, i + 1);
    }
}

proof fn lemma_sws_skip_wsp(s: Seq<u8>, i: int, j: int)
    requires
        0 <= i <= j <= s.len(),
        forall|k: int| i <= k < j ==> spec_is_wsp(#[trigger] s[k]),
    ensures
        sws_end(s, i) == sws_end(s, j),
    decreases j - i,
{
    if i < j {
        lemma_sws_skip_wsp(s, i + 1, j);
    }
}

pub proof fn lemma_class_run_bounds(s: Seq<u8>, cls: ByteClass, i: int)
    requires
        0 <= i <= s.len(),
    ensures
        i <= class_run_end(s, cls, i) <= s.len(),
        forall|k: int| i <= k < class_run_end(s, cls, i) ==> cls.spec_holds(#[trigger] s[k]),
        class_run_end(s, cls, i) == s.len() || !cls.spec_holds(s[class_run_end(s, cls, i)]),
    decreases s.len() - i,
{
    if i < s.len() && cls.spec_holds(s[i]) {
        lemma_class_run_bounds(s, cls, i + 1);
    }
}

pub proof fn lemma_class_run_exact(s: Seq<u8>, cls: ByteClass, i: int, j: int)
    requires
        0 <= i <= j <= s.len(),
        forall|k: int| i <= k < j ==> cls.spec_holds(#[trigger] s[k]),
        j == s.len() || !cls.spec_holds(s[j]),
    ensures
        class_run_end(s, cls, i) == j,
    decreases j - i,
{
    if i < j {
        lemma_class_run_exact(s, cls, i + 1, j);
    }
}

/// Removes separator whitespace from the front of `input`; returns (rest, whitespace taken).
/// Succeeds on every input, the empty one included.
pub fn take_sws<'a>(input: &'a [u8]) -> (r: (&'a [u8], &'a [u8]))
    ensures
        0 <= sws_end(input@, 0) <= input@.len(),
        r.0@ == input@.subrange(sws_end(input@, 0), input@.len() as int),
        r.1@ == input@.subrange(0, sws_end(input@, 0)),
{
    let mut pos: usize = 0;
    proof {
        lemma_sws_end_bounds(input@, 0);
    }
    loop
        invariant
            pos <= input.len(),
            pos <= sws_end(input@, 0) <= input@.len(),
            sws_end(input@, pos as int) == sws_end(input@, 0),
        decreases input.len() - pos,
    {
        let sub = &input[pos..input.len()];
        let (rest, sp) = space0(sub).unwrap();
        let ws_stop = pos + sp.len();
        proof {
            assert forall|k: int| pos <= k < ws_stop implies spec_is_wsp(#[trigger] input@[k]) by {
                assert(sub@[k - pos] == input@[k]);
            }
            lemma_sws_skip_wsp(input@, pos as int, ws_stop as int);
            lemma_sws_end_bounds(input@, ws_stop as int);
        }
        if input.len() - ws_stop > 2 && input[ws_stop] == 0x0Du8 && input[ws_stop + 1] == 0x0Au8 && is_wsp(
            input[ws_stop + 2],
        ) {
            assert(!spec_is_wsp(input@[ws_stop as int]));
            proof {
                lemma_sws_end_bounds(input@, ws_stop as int + 2);
            }
            pos = ws_stop + 2;
        } else {
            assert(ws_stop == input.len() || !spec_is_wsp(input@[ws_stop as int]));
            return (&input[ws_stop..input.len()], &input[0..ws_stop]);
        }
    }
}

proof fn lemma_sws_end_fixpoint(s: Seq<u8>, i: int)
    requires
        0 <= i <= s.len(),
    ensures
        sws_end(s, sws_end(s, i)) == sws_end(s, i),
    decreases s.len() - i,
{
    if i < s.len() {
        if spec_is_wsp(s[i]) {
            lemma_sws_end_fixpoint(s, i + 1);
        } else if i + 2 < s.len() && s[i] == 0x0Du8 && s[i + 1] == 0x0Au8 && spec_is_wsp(
            s[i + 2],
        ) {
            lemma_sws_end_fixpoint(s, i + 2);
        }
    }
}

/// Taking separator whitespace is idempotent: from what `take_sws` leaves, it takes nothing.
pub proof fn lemma_take_sws_idempotent(s: Seq<u8>)
    ensures
        sws_end(s.subrange(sws_end(s, 0), s.len() as int), 0) == 0,
{
    lemma_sws_end_bounds(s, 0);
    lemma_sws_end_shift(s, sws_end(s, 0));
    lemma_sws_end_fixpoint(s, 0);
}

/// Takes octets of `cls` and `%HH` escapes; a `%` without two hex digits after it ends the run.
/// Returns (rest, run).
pub fn take_while_with_escaped<'a>(input: &'a [u8], cls: ByteClass) -> (r: (&'a [u8], &'a [u8]))
    ensures
        0 <= escaped_run_end(input@, cls, 0) <= input@.len(),
        r.0@ == input@.subrange(escaped_run_end(input@, cls, 0), input@.len() as int),
        r.1@ == input@.subrange(0, escaped_run_end(input@, cls, 0)),
{
    let mut idx: usize = 0;
    proof {
        lemma_escaped_run_bounds(input@, cls, 0);
    }
    while idx < input.len()
        invariant
            idx <= input.len(),
            escaped_run_end(input@, cls, idx as int) == escaped_run_end(input@, cls, 0),
        ensures
            idx == escaped_run_end(input@, cls, 0),
        decreases input.len() - idx,
    {
        if cls.holds(input[idx]) {
            idx += 1;
        } else if is_escaped(&input[idx..input.len()]) {
            idx += 3;
        } else {
            break;
        }
    }
    (&input[idx..input.len()], &input[0..idx])
}

/// Takes octets up to the first DQUOTE that no backslash escapes; returns (rest, taken), the
/// rest starting at that quote. Fails with `UnterminatedQuotedString` when the input, or the
/// header (a CRLF that no WSP follows), ends first.
pub fn take_until_nonescaped_quote<'a>(input: &'a [u8]) -> (r: Result<
    (&'a [u8], &'a [u8]),
    SipParseError,
>)
    ensures
        match closing_quote_from(input@, 0) {
            None => r == Err::<(&[u8], &[u8]), SipParseError>(
                SipParseError::UnterminatedQuotedString,
            ),
            Some(k) => r is Ok && result_view(r) == Ok::<(Seq<u8>, Seq<u8>), SipParseError>(
                (input@.subrange(k, input@.len() as int), input@.subrange(0, k)),
            ),
        },
{
    let mut idx: usize = 0;
    while idx < input.len()
        invariant
            idx <= input.len(),
            closing_quote_from(input@, idx as int) == closing_quote_from(input@, 0),
        decreases input.len() - idx,
    {
        if input.len() - idx >= 2 && input[idx] == 0x0Du8 && input[idx + 1] == 0x0Au8 && (
        input.len() - idx == 2 || !is_wsp(input[idx + 2])) {
            return Err(SipParseError::UnterminatedQuotedString);
        }
        if input[idx] == 0x22u8 {
            if idx != 0 && input[idx - 1] == 0x5Cu8 {
                idx += 1;
                continue;
            }
            return Ok((&input[idx..input.len()], &input[0..idx]));
        }
        idx += 1;
    }
    Err(SipParseError::UnterminatedQuotedString)
}

/// Takes a quoted string with the SWS around it; returns (rest, interior). Escapes in the
/// interior are kept as they are. Fails with `UnterminatedQuotedString` when no closing quote
/// comes before the end of the input or of the header.
pub fn take_qutoed_string<'a>(input: &'a [u8]) -> (r: Result<(&'a [u8], &'a [u8]), SipParseError>)
    ensures
        result_view(r) == spec_quoted_string(input@),
{
    let (_, sp) = take_sws(input);
    let a = sp.len();
    if a >= input.len() || input[a] != 0x22u8 {
        return Err(SipParseError::ExpectedLiteral(0x22u8));
    }
    let t = &input[a + 1..input.len()];
    proof {
        lemma_closing_quote(t@, 0);
    }
    match take_until_nonescaped_quote(t) {
        Err(e) => Err(e),
        Ok((_, inner)) => {
            let close = a + 1 + inner.len();
            let (_, sp2) = take_sws(&input[close + 1..input.len()]);
            proof {
                lemma_sws_end_shift(input@, close + 1);
            }
            Ok((&input[close + 1 + sp2.len()..input.len()], inner))
        },
    }
}

/// SWS computed on a suffix is SWS computed on the whole at the suffix's start.
pub proof fn lemma_sws_end_shift(s: Seq<u8>, b: int)
    requires
        0 <= b <= s.len(),
    ensures
        sws_end(s.subrange(b, s.len() as int), 0) + b == sws_end(s, b),
{
    lemma_sws_end_shift_from(s, b, b);
}

proof fn lemma_sws_end_shift_from(s: Seq<u8>, b: int, i: int)
    requires
        0 <= b <= i <= s.len(),
    ensures
        sws_end(s.subrange(b, s.len() as int), i - b) + b == sws_end(s, i),
    decreases s.len() - i,
{
    let t = s.subrange(b, s.len() as int);
    if i < s.len() {
        if spec_is_wsp(s[i]) {
            lemma_sws_end_shift_from(s, b, i + 1);
        } else if i + 2 < s.len() && s[i] == 0x0Du8 && s[i + 1] == 0x0Au8 && spec_is_wsp(
            s[i + 2],
        ) {
            lemma_sws_end_shift_from(s, b, i + 2);
        }
    }
}

/// Takes a non-empty run of `cls` with optional SWS before and after it; returns (rest, run).
/// Fails with `InvalidToken` when no octet of `cls` follows the leading SWS.
pub fn take_while_trim_sws<'a>(input: &'a [u8], cls: ByteClass) -> (r: Result<
    (&'a [u8], &'a [u8]),
    SipParseError,
>)
    ensures
        result_view(r) == spec_trim_sws(input@, cls),
{
    let (rest, sp) = take_sws(input);
    let a = sp.len();
    assert(rest@.len() == input@.len() - a);
    let tw = take_while1(rest, cls);
    match tw {
        None => Err(SipParseError::InvalidToken),
        Some((_, run)) => {
            let total = input.len();
            assert(a + run@.len() <= total);
            let b = a + run.len();
            proof {
                assert forall|k: int| a <= k < b implies cls.spec_holds(#[trigger] input@[k]) by {
                    assert(rest@[k - a] == input@[k]);
                }
                if b < input.len() {
                    assert(rest@[b - a] == input@[b as int]);
                }
                lemma_class_run_exact(input@, cls, a as int, b as int);
            }
            let (_, sp2) = take_sws(&input[b..input.len()]);
            proof {
                lemma_sws_end_shift(input@, b as int);
            }
            Ok((&input[b + sp2.len()..input.len()], &input[a..b]))
        },
    }
}

/// Views octets as UTF-8 text; fails with `InvalidUtf8` when they are not.
pub fn from_utf8_nom(v: &[u8]) -> (r: Result<&str, SipParseError>)
    ensures
        r is Ok <==> valid_utf8(v@),
        r matches Ok(s) ==> s.spec_bytes() == v@,
        r is Err ==> r == Err::<&str, SipParseError>(SipParseError::InvalidUtf8),
{
    match str_from_utf8(v) {
        Some(s) => Ok(s),
        None => Err(SipParseError::InvalidUtf8),
    }
}

} // verus!
