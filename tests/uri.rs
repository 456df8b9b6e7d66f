use sipmsg::{RequestUriScheme, SipHeaders, SipParseError, SipRFCHeader};

#[test]
fn uri_parts() {
    let (_, hdrs) = SipHeaders::parse(
        b"Contact: <sips:bob:secret@[2001:db8::1]:5061;transport=tls?subject=project&priority=urgent>\r\n\r\n",
    )
    .unwrap();
    let c = hdrs.get_rfc_s(SipRFCHeader::Contact).unwrap();
    let u = c.value.sip_uri().unwrap();
    assert_eq!(u.scheme, RequestUriScheme::SIPS);
    assert_eq!(u.user_info().unwrap().value, b"bob");
    assert_eq!(u.user_info().unwrap().password, Some(&b"secret"[..]));
    assert_eq!(u.hostport.host, b"[2001:db8::1]");
    assert_eq!(u.hostport.port, Some(&b"5061"[..]));
    assert_eq!(u.param(b"TRANSPORT"), Some(Some(&b"tls"[..])));
    let headers = u.headers.as_ref().unwrap();
    assert_eq!(headers.len(), 2);
    assert_eq!(headers[1], (&b"priority"[..], Some(&b"urgent"[..])));
}

#[test]
fn tel_uri_and_bad_port() {
    let (_, hdrs) = SipHeaders::parse(b"To: <tel:+1-201-555-0123>\r\n\r\n").unwrap();
    let u = hdrs.get_rfc_s(SipRFCHeader::To).unwrap().value.sip_uri().unwrap();
    assert_eq!(u.scheme, RequestUriScheme::TEL);
    assert!(u.user_info().is_none());
    assert_eq!(u.hostport.host, b"+1-201-555-0123");
    assert_eq!(
        SipHeaders::parse(b"To: <sip:a@example.com:123456>\r\n\r\n").unwrap_err(),
        SipParseError::InvalidUri
    );
    assert_eq!(
        SipHeaders::parse(b"To: <sip:a@[::1>\r\n\r\n").unwrap_err(),
        SipParseError::InvalidUri
    );
}

#[test]
fn params_inside_and_after_angle_brackets() {
    let (_, hdrs) =
        SipHeaders::parse(b"From: <sip:alice@atlanta.com;transport=udp>;tag=88sja8x\r\n\r\n").unwrap();
    let f = hdrs.get_rfc_s(SipRFCHeader::From).unwrap();
    assert_eq!(f.param(b"tag"), Some(Some(&b"88sja8x"[..])));
    assert_eq!(f.param(b"transport"), None);
    let u = f.value.sip_uri().unwrap();
    assert_eq!(u.param(b"transport"), Some(Some(&b"udp"[..])));
    assert_eq!(u.param(b"tag"), None);
}
