//! The calls into nom and into std's UTF-8 check, with what they promise.
use vstd::prelude::*;
use vstd::string::StringSliceAdditionalSpecFns;
use vstd::utf8::valid_utf8;
use crate::bnfcore::{spec_is_wsp, ByteClass};

verus! {

/// Relies on nom::character::complete::space0 on a byte slice: it always succeeds and splits
/// off the longest prefix of spaces and tabs, handing back (rest, prefix).
#[verifier::external_body]
pub(crate) fn space0(input: &[u8]) -> (r: Option<(&[u8], &[u8])>)
    ensures
        r is Some,
        r matches Some((rest, sp)) ==> {
            &&& sp@.len() <= input@.len()
            &&& sp@ == input@.subrange(0, sp@.len() as int)
            &&& rest@ == input@.subrange(sp@.len() as int, input@.len() as int)
            &&& forall|k: int| 0 <= k < sp@.len() ==> spec_is_wsp(#[trigger] input@[k])
            &&& sp@.len() == input@.len() || !spec_is_wsp(input@[sp@.len() as int])
        },
{
    match nom::character::complete::space0::<&[u8], nom::error::Error<&[u8]>>(input) {
        Ok(p) => Some(p),
        Err(_) => None,
    }
}

/// Relies on nom::bytes::complete::take_while1 on a byte slice: it fails when the first octet
/// is missing or not of the class, and otherwise splits off the longest prefix of octets of the
/// class, handing back (rest, prefix).
#[verifier::external_body]
pub(crate) fn take_while1(input: &[u8], cls: ByteClass) -> (r: Option<(&[u8], &[u8])>)
    ensures
        r is None <==> (input@.len() == 0 || !cls.spec_holds(input@[0])),
        r matches Some((rest, t)) ==> {
            &&& t@.len() <= input@.len()
            &&& t@ == input@.subrange(0, t@.len() as int)
            &&& rest@ == input@.subrange(t@.len() as int, input@.len() as int)
            &&& forall|k: int| 0 <= k < t@.len() ==> cls.spec_holds(#[trigger] input@[k])
            &&& t@.len() == input@.len() || !cls.spec_holds(input@[t@.len() as int])
        },
{
    let f = nom::bytes::complete::take_while1::<_, &[u8], nom::error::Error<&[u8]>>(
        |c: u8| cls.holds(c),
    );
    match f(input) {
        Ok(p) => Some(p),
        Err(_) => None,
    }
}

/// Relies on nom::bytes::complete::take_while on a byte slice: it always succeeds and splits
/// off the longest prefix of octets of the class (possibly empty), handing back (rest, prefix).
#[verifier::external_body]
pub(crate) fn take_while(input: &[u8], cls: ByteClass) -> (r: Option<(&[u8], &[u8])>)
    ensures
        r is Some,
        r matches Some((rest, t)) ==> {
            &&& t@.len() <= input@.len()
            &&& t@ == input@.subrange(0, t@.len() as int)
            &&& rest@ == input@.subrange(t@.len() as int, input@.len() as int)
            &&& forall|k: int| 0 <= k < t@.len() ==> cls.spec_holds(#[trigger] input@[k])
            &&& t@.len() == input@.len() || !cls.spec_holds(input@[t@.len() as int])
        },
{
    let f = nom::bytes::complete::take_while::<_, &[u8], nom::error::Error<&[u8]>>(
        |c: u8| cls.holds(c),
    );
    match f(input) {
        Ok(p) => Some(p),
        Err(_) => None,
    }
}

/// Relies on core::str::from_utf8: it succeeds exactly on valid UTF-8 and then views the same
/// octets as a string.
#[verifier::external_body]
pub(crate) fn str_from_utf8(v: &[u8]) -> (r: Option<&str>)
    ensures
        r is Some <==> valid_utf8(v@),
        r matches Some(s) ==> s.spec_bytes() == v@,
{
    match core::str::from_utf8(v) {
        Ok(s) => Some(s),
        Err(_) => None,
    }
}

} // verus!
