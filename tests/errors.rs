use sipmsg::nom_wrappers::from_utf8_nom;
use sipmsg::{SipHeaders, SipMessage, SipParseError, SipRFCHeader};

fn err(s: &[u8]) -> SipParseError {
    SipHeaders::parse(s).unwrap_err()
}

#[test]
fn error_variants() {
    assert_eq!(err(b""), SipParseError::UnexpectedEof);
    assert_eq!(err(b"To: sip:a@b.c"), SipParseError::UnexpectedEof);
    assert_eq!(err(b"To: sip:a@b.c\r\n"), SipParseError::UnexpectedEof);
    assert_eq!(err(b": value\r\n\r\n"), SipParseError::InvalidToken);
    assert_eq!(err(b"To sip:a@b.c\r\n\r\n"), SipParseError::ExpectedLiteral(b':'));
    assert_eq!(err(b"To: <http://example.com>\r\n\r\n"), SipParseError::InvalidUri);
    assert_eq!(err(b"To: <sip:us%2Ger@example.com>\r\n\r\n"), SipParseError::InvalidEscape);
    assert_eq!(err(b"CSeq: abc INVITE\r\n\r\n"), SipParseError::HeaderFormat(SipRFCHeader::CSeq));
    assert_eq!(err(b"Max-Forwards: 7x\r\n\r\n"), SipParseError::HeaderFormat(SipRFCHeader::MaxForwards));
    assert_eq!(err(b"Subject: \xff\xfe\r\n\r\n"), SipParseError::InvalidUtf8);
    assert_eq!(err(b"To: x <sip:a@b.c\r\n\r\n"), SipParseError::ExpectedLiteral(b'>'));
    assert!(SipMessage::parse(b"HELLO sip:a@b SIP/2.0\r\n\r\n").is_err());
    match SipMessage::parse(b"XYZ") {
        Err(e) => assert_eq!(e, SipParseError::InvalidMessage),
        Ok(_) => panic!("parsed an unknown message"),
    }
}

#[test]
fn error_codes_and_descriptions() {
    assert_eq!(SipParseError::UnexpectedEof.code(), 1);
    assert_eq!(SipParseError::UnterminatedQuotedString.code(), 4);
    assert_eq!(SipParseError::HeaderFormat(SipRFCHeader::Via).code(), 7);
    assert_eq!(SipParseError::InvalidUri.description(), "invalid URI");
}

#[test]
fn utf8_view() {
    assert_eq!(from_utf8_nom("héllo".as_bytes()).unwrap(), "héllo");
    assert_eq!(from_utf8_nom(&[0x66, 0xff]).unwrap_err(), SipParseError::InvalidUtf8);
}
