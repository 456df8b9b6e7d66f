//! A header value that is a single token.
use vstd::prelude::*;
use crate::bnfcore::ByteClass;
use crate::errorparse::SipParseError;
use crate::header::{HeaderValue, SipHeaderValueType};
use crate::nom_calls::take_while1;
use crate::nom_wrappers::class_run_end;

verus! {

/// Takes a non-empty token from the front of `input`; returns the rest and the token as a
/// `TokenValue`. Fails with `InvalidToken` when `input` does not start with a token octet.
pub fn take<'a>(input: &'a [u8]) -> (r: Result<(&'a [u8], HeaderValue<'a>), SipParseError>)
    ensures
        r is Err <==> (input@.len() == 0 || !ByteClass::TokenChar.spec_holds(input@[0])),
        r is Err ==> r == Err::<(&[u8], HeaderValue), SipParseError>(SipParseError::InvalidToken),
        r matches Ok((rest, v)) ==> {
            let e = class_run_end(input@, ByteClass::TokenChar, 0);
            &&& v.vstr@ == input@.subrange(0, e)
            &&& rest@ == input@.subrange(e, input@.len() as int)
            &&& v.vtype == SipHeaderValueType::TokenValue
            &&& v.tags@.len() == 0
            &&& v.sip_uri is None
        },
{
    match take_while1(input, ByteClass::TokenChar) {
        None => Err(SipParseError::InvalidToken),
        Some((inp, res_val)) => {
            proof {
                crate::nom_wrappers::lemma_class_run_exact(
                    input@,
                    ByteClass::TokenChar,
                    0,
                    res_val@.len() as int,
                );
            }
            let hdr_val = HeaderValue {
                vstr: res_val,
                vtype: SipHeaderValueType::TokenValue,
                tags: Vec::new(),
                sip_uri: None,
            };
            Ok((inp, hdr_val))
        },
    }
}

} // verus!
