use sipmsg::token_header::take;
use sipmsg::{
    get_message_type, HeaderName, MessageType, SipHeaderValueType, SipHeaders, SipMessage,
    SipRFCHeader, SipVersion,
};

#[test]
fn message_type_from_first_octets() {
    assert_eq!(
        get_message_type("INVITE sip:vivekg@chair-dnrc.example.com;unknownparam SIP/2.0".as_bytes()),
        MessageType::Request
    );
    assert_eq!(get_message_type(b"SIP/2.0 200 OK"), MessageType::Response);
    assert_eq!(get_message_type(b"UPDATE"), MessageType::Request);
    assert_eq!(get_message_type(b"SI"), MessageType::Unknown);
    assert_eq!(get_message_type(b"GET / HTTP/1.1"), MessageType::Unknown);
}

#[test]
fn parse_request_message() {
    let raw = b"OPTIONS sip:carol@chicago.com SIP/2.0\r\nCSeq: 63104 OPTIONS\r\nContent-Length: 0\r\n\r\nxyz";
    let (rest, msg) = SipMessage::parse(raw).unwrap();
    assert!(rest.is_empty());
    assert!(msg.response().is_none());
    let req = msg.request().unwrap();
    assert_eq!(req.method, b"OPTIONS");
    assert_eq!(req.request_uri, b"sip:carol@chicago.com");
    assert_eq!(req.sip_version, SipVersion(2, 0));
    assert_eq!(req.headers.len(), 2);
    assert_eq!(req.body, b"xyz");
}

#[test]
fn parse_response_message() {
    let raw = b"SIP/2.0 180 Ringing\r\nCall-ID: a84b4c76e66710@pc33.atlanta.com\r\n\r\n";
    let (_, msg) = SipMessage::parse(raw).unwrap();
    assert!(msg.request().is_none());
    let resp = msg.response().unwrap();
    assert_eq!(resp.status_code, 180);
    assert_eq!(resp.reason_phrase, b"Ringing");
    assert_eq!(resp.body, b"");
    let call_id = resp.headers.get_rfc_s(SipRFCHeader::CallID).unwrap();
    assert_eq!(call_id.value.vtype, SipHeaderValueType::CallID);
}

#[test]
fn token_value() {
    let (rest, v) = take(b"100rel, timer").unwrap();
    assert_eq!(v.vstr, b"100rel");
    assert_eq!(rest, b", timer");
    assert_eq!(v.vtype, SipHeaderValueType::TokenValue);
    assert!(take(b" x").is_err());
}

#[test]
fn lookups_and_len() {
    let (_, hdrs) = SipHeaders::parse(
        b"X-Foo: 1\r\nx-foo: 2\r\nVia: SIP/2.0/UDP a.example.com\r\nv: SIP/2.0/TCP b.example.com\r\n\r\n",
    )
    .unwrap();
    assert_eq!(hdrs.entries().len(), 4);
    assert_eq!(hdrs.len(), 2);
    let ext = hdrs.get_ext(b"X-FOO").unwrap();
    assert_eq!(ext.len(), 2);
    assert_eq!(ext[1].value.vstr, b"2");
    assert!(matches!(ext[0].name, HeaderName::Extension(n) if n == b"X-Foo"));
    assert_eq!(hdrs.get_ext_s(b"x-foo").unwrap().value.vstr, b"1");
    let vias = hdrs.get_rfc(SipRFCHeader::Via).unwrap();
    assert_eq!(vias[1].value.vstr, b"SIP/2.0/TCP b.example.com");
    assert!(hdrs.get_rfc(SipRFCHeader::Route).is_none());
    assert!(hdrs.get_rfc_s(SipRFCHeader::Route).is_none());
    assert!(hdrs.get_ext_s(b"Y").is_none());
}

#[test]
fn empty_header_section() {
    let (rest, hdrs) = SipHeaders::parse(b"\r\nbody").unwrap();
    assert_eq!(rest, b"\r\nbody");
    assert_eq!(hdrs.len(), 0);
}

#[test]
fn request_headers_through_message_parse() {
    let raw = b"OPTIONS sip:bob@biloxi.com SIP/2.0\r\nt: David <sip:davidko@biloxi.com>;tag=99sa0xk\r\n\r\n";
    let (_, msg) = SipMessage::parse(raw).unwrap();
    let req = msg.request().unwrap();
    let to = req.headers.get_rfc_s(SipRFCHeader::To).unwrap();
    assert_eq!(to.value.vstr, b"David <sip:davidko@biloxi.com>");
    assert_eq!(to.param(b"tag"), Some(Some(&b"99sa0xk"[..])));
    assert!(req.headers.get_ext_s(b"t").is_none());
    assert!(SipMessage::parse(b"OPTIONS sip:bob@biloxi.com SIP/2.0\r\nCSeq: x\r\n\r\n").is_err());
}
