//! Character classes of the SIP grammar (RFC 3261 section 25.1).
use vstd::prelude::*;

verus! {

pub open spec fn spec_is_wsp(c: u8) -> bool {
    c == 0x20u8 || c == 0x09u8
}

pub open spec fn spec_is_alpha(c: u8) -> bool {
    (0x41u8 <= c && c <= 0x5Au8) || (0x61u8 <= c && c <= 0x7Au8)
}

pub open spec fn spec_is_digit(c: u8) -> bool {
    0x30u8 <= c && c <= 0x39u8
}

pub open spec fn spec_is_alphanum(c: u8) -> bool {
    spec_is_alpha(c) || spec_is_digit(c)
}

pub open spec fn spec_is_hexdig(c: u8) -> bool {
    spec_is_digit(c) || (0x41u8 <= c && c <= 0x46u8) || (0x61u8 <= c && c <= 0x66u8)
}

/// token characters: alphanumerics and `-.!%*_+`'~`
pub open spec fn spec_is_token_char(c: u8) -> bool {
    spec_is_alphanum(c) || c == 0x2Du8 || c == 0x2Eu8 || c == 0x21u8 || c == 0x25u8
        || c == 0x2Au8 || c == 0x5Fu8 || c == 0x2Bu8 || c == 0x60u8 || c == 0x27u8
        || c == 0x7Eu8
}

/// mark characters: `-_.!~*'()`
pub open spec fn spec_is_mark(c: u8) -> bool {
    c == 0x2Du8 || c == 0x5Fu8 || c == 0x2Eu8 || c == 0x21u8 || c == 0x7Eu8 || c == 0x2Au8
        || c == 0x27u8 || c == 0x28u8 || c == 0x29u8
}

pub open spec fn spec_is_unreserved(c: u8) -> bool {
    spec_is_alphanum(c) || spec_is_mark(c)
}

/// reserved characters: `;/?:@&=+$,`
pub open spec fn spec_is_reserved(c: u8) -> bool {
    c == 0x3Bu8 || c == 0x2Fu8 || c == 0x3Fu8 || c == 0x3Au8 || c == 0x40u8 || c == 0x26u8
        || c == 0x3Du8 || c == 0x2Bu8 || c == 0x24u8 || c == 0x2Cu8
}

/// characters of a Call-ID word: token characters and `()<>:\"/[]?{}`
pub open spec fn spec_is_word_char(c: u8) -> bool {
    spec_is_token_char(c) || c == 0x28u8 || c == 0x29u8 || c == 0x3Cu8 || c == 0x3Eu8
        || c == 0x3Au8 || c == 0x5Cu8 || c == 0x22u8 || c == 0x2Fu8 || c == 0x5Bu8
        || c == 0x5Du8 || c == 0x3Fu8 || c == 0x7Bu8 || c == 0x7Du8
}

/// characters of a user part besides unreserved ones: `&=+$,;?/`
pub open spec fn spec_is_user_unreserved(c: u8) -> bool {
    c == 0x26u8 || c == 0x3Du8 || c == 0x2Bu8 || c == 0x24u8 || c == 0x2Cu8 || c == 0x3Bu8
        || c == 0x3Fu8 || c == 0x2Fu8
}

/// characters of a host name or an IPv4 address
pub open spec fn spec_is_host_char(c: u8) -> bool {
    spec_is_alphanum(c) || c == 0x2Du8 || c == 0x2Eu8
}

/// `%` followed by two hex digits
pub open spec fn spec_is_escaped(s: Seq<u8>) -> bool {
    s.len() >= 3 && s[0] == 0x25u8 && spec_is_hexdig(s[1]) && spec_is_hexdig(s[2])
}

/// the two octets CR LF
pub open spec fn spec_is_crlf(s: Seq<u8>) -> bool {
    s.len() >= 2 && s[0] == 0x0Du8 && s[1] == 0x0Au8
}

/// A class of octets that a scanner takes.
#[derive(Clone, Copy, Debug, PartialEq, Eq, Structural)]
pub enum ByteClass {
    Alpha,
    Digit,
    Alphanum,
    HexDig,
    TokenChar,
    Unreserved,
    Reserved,
    Word,
    Host,
    /// unreserved characters and the user-unreserved ones
    User,
    /// token characters and `[]/:&$`, as in a parameter value
    ParamChar,
}

impl ByteClass {
    pub open spec fn spec_holds(self, c: u8) -> bool {
        match self {
            ByteClass::Alpha => spec_is_alpha(c),
            ByteClass::Digit => spec_is_digit(c),
            ByteClass::Alphanum => spec_is_alphanum(c),
            ByteClass::HexDig => spec_is_hexdig(c),
            ByteClass::TokenChar => spec_is_token_char(c),
            ByteClass::Unreserved => spec_is_unreserved(c),
            ByteClass::Reserved => spec_is_reserved(c),
            ByteClass::Word => spec_is_word_char(c),
            ByteClass::Host => spec_is_host_char(c),
            ByteClass::User => spec_is_unreserved(c) || spec_is_user_unreserved(c),
            ByteClass::ParamChar => spec_is_token_char(c) || c == 0x5Bu8 || c == 0x5Du8
                || c == 0x2Fu8 || c == 0x3Au8 || c == 0x26u8 || c == 0x24u8,
        }
    }

    pub fn holds(&self, c: u8) -> (r: bool)
        ensures
            r == self.spec_holds(c),
    {
        match self {
            ByteClass::Alpha => is_alpha(c),
            ByteClass::Digit => is_digit(c),
            ByteClass::Alphanum => is_alphanum(c),
            ByteClass::HexDig => is_hexdig(c),
            ByteClass::TokenChar => is_token_char(c),
            ByteClass::Unreserved => is_unreserved(c),
            ByteClass::Reserved => is_reserved(c),
            ByteClass::Word => is_word_char(c),
            ByteClass::Host => is_alphanum(c) || c == 0x2Du8 || c == 0x2Eu8,
            ByteClass::User => is_unreserved(c) || c == 0x26u8 || c == 0x3Du8 || c == 0x2Bu8
                || c == 0x24u8 || c == 0x2Cu8 || c == 0x3Bu8 || c == 0x3Fu8 || c == 0x2Fu8,
            ByteClass::ParamChar => is_token_char(c) || c == 0x5Bu8 || c == 0x5Du8
                || c == 0x2Fu8 || c == 0x3Au8 || c == 0x26u8 || c == 0x24u8,
        }
    }
}

pub fn is_wsp(c: u8) -> (r: bool)
    ensures
        r == spec_is_wsp(c),
{
    c == 0x20u8 || c == 0x09u8
}

pub fn is_alpha(c: u8) -> (r: bool)
    ensures
        r == spec_is_alpha(c),
{
    (0x41u8 <= c && c <= 0x5Au8) || (0x61u8 <= c && c <= 0x7Au8)
}

pub fn is_digit(c: u8) -> (r: bool)
    ensures
        r == spec_is_digit(c),
{
    0x30u8 <= c && c <= 0x39u8
}

pub fn is_alphanum(c: u8) -> (r: bool)
    ensures
        r == spec_is_alphanum(c),
{
    is_alpha(c) || is_digit(c)
}

pub fn is_hexdig(c: u8) -> (r: bool)
    ensures
        r == spec_is_hexdig(c),
{
    is_digit(c) || (0x41u8 <= c && c <= 0x46u8) || (0x61u8 <= c && c <= 0x66u8)
}

pub fn is_token_char(c: u8) -> (r: bool)
    ensures
        r == spec_is_token_char(c),
{
    is_alphanum(c) || c == 0x2Du8 || c == 0x2Eu8 || c == 0x21u8 || c == 0x25u8 || c == 0x2Au8
        || c == 0x5Fu8 || c == 0x2Bu8 || c == 0x60u8 || c == 0x27u8 || c == 0x7Eu8
}

pub fn is_mark(c: u8) -> (r: bool)
    ensures
        r == spec_is_mark(c),
{
    c == 0x2Du8 || c == 0x5Fu8 || c == 0x2Eu8 || c == 0x21u8 || c == 0x7Eu8 || c == 0x2Au8
        || c == 0x27u8 || c == 0x28u8 || c == 0x29u8
}

pub fn is_unreserved(c: u8) -> (r: bool)
    ensures
        r == spec_is_unreserved(c),
{
    is_alphanum(c) || is_mark(c)
}

pub fn is_reserved(c: u8) -> (r: bool)
    ensures
        r == spec_is_reserved(c),
{
    c == 0x3Bu8 || c == 0x2Fu8 || c == 0x3Fu8 || c == 0x3Au8 || c == 0x40u8 || c == 0x26u8
        || c == 0x3Du8 || c == 0x2Bu8 || c == 0x24u8 || c == 0x2Cu8
}

pub fn is_word_char(c: u8) -> (r: bool)
    ensures
        r == spec_is_word_char(c),
{
    is_token_char(c) || c == 0x28u8 || c == 0x29u8 || c == 0x3Cu8 || c == 0x3Eu8 || c == 0x3Au8
        || c == 0x5Cu8 || c == 0x22u8 || c == 0x2Fu8 || c == 0x5Bu8 || c == 0x5Du8
        || c == 0x3Fu8 || c == 0x7Bu8 || c == 0x7Du8
}

pub fn is_escaped(s: &[u8]) -> (r: bool)
    ensures
        r == spec_is_escaped(s@),
{
    s.len() >= 3 && s[0] == 0x25u8 && is_hexdig(s[1]) && is_hexdig(s[2])
}

pub fn is_crlf(s: &[u8]) -> (r: bool)
    ensures
        r == spec_is_crlf(s@),
{
    s.len() >= 2 && s[0] == 0x0Du8 && s[1] == 0x0Au8
}

} // verus!
