use sipmsg::nom_wrappers::take_qutoed_string;
use sipmsg::{RequestUriScheme, SipHeaderTagType, SipHeaders, SipParseError, SipRFCHeader};

fn parse(s: &str) -> (&[u8], SipHeaders<'_>) {
    SipHeaders::parse(s.as_bytes()).unwrap()
}

#[test]
fn scenario_to_bare_uri() {
    let (rest, hdrs) = parse("To: sip:user@example.com\r\n\r\n");
    assert_eq!(rest, "\r\n".as_bytes());
    let to = hdrs.get_rfc(SipRFCHeader::To).unwrap();
    assert_eq!(to.len(), 1);
    assert_eq!(to[0].value.vstr, "sip:user@example.com".as_bytes());
    let uri = to[0].value.sip_uri().unwrap();
    assert_eq!(uri.scheme, RequestUriScheme::SIP);
    assert_eq!(uri.user_info().unwrap().value, "user".as_bytes());
    assert_eq!(uri.hostport.host, "example.com".as_bytes());
    assert!(!to[0].has_params());
}

#[test]
fn scenario_from_with_tag() {
    let (_, hdrs) = parse("From: caller <sip:caller2@example.com>;tag=323\r\n\r\n");
    let from = hdrs.get_rfc_s(SipRFCHeader::From).unwrap();
    assert_eq!(from.value.vstr, "caller <sip:caller2@example.com>".as_bytes());
    assert_eq!(from.value.tag(SipHeaderTagType::DisplayName).unwrap(), "caller".as_bytes());
    assert_eq!(from.param(b"tag"), Some(Some("323".as_bytes())));
}

#[test]
fn scenario_cseq() {
    let (_, hdrs) = parse("CSeq: 60 OPTIONS\r\n\r\n");
    let cseq = hdrs.get_rfc_s(SipRFCHeader::CSeq).unwrap();
    assert_eq!(cseq.value.tag(SipHeaderTagType::Number).unwrap(), "60".as_bytes());
    assert_eq!(cseq.value.tag(SipHeaderTagType::Method).unwrap(), "OPTIONS".as_bytes());
}

#[test]
fn scenario_authorization_folded() {
    let (_, hdrs) = parse(
        "Authorization: Digest username=\"Alice\", realm=\"atlanta.com\"\r\n\t,nonce=\"84a4cc6f3082121f32b42a2187831a9e\",\r\n response=\"7587245234b3434cc3412213e5f113a5432\"\r\n\r\n",
    );
    let v = &hdrs.get_rfc_s(SipRFCHeader::Authorization).unwrap().value;
    assert_eq!(v.tag(SipHeaderTagType::AuthSchema).unwrap(), "Digest".as_bytes());
    assert_eq!(v.tag(SipHeaderTagType::Username).unwrap(), "Alice".as_bytes());
    assert_eq!(v.tag(SipHeaderTagType::Realm).unwrap(), "atlanta.com".as_bytes());
    assert_eq!(
        v.tag(SipHeaderTagType::Nonce).unwrap(),
        "84a4cc6f3082121f32b42a2187831a9e".as_bytes()
    );
    assert_eq!(
        v.tag(SipHeaderTagType::Dresponse).unwrap(),
        "7587245234b3434cc3412213e5f113a5432".as_bytes()
    );
}

#[test]
fn scenario_via() {
    let (_, hdrs) = parse("Via: SIP/2.0/UDP funky.example.com;branch=z9hG4bKkdjuw\r\n\r\n");
    let via = hdrs.get_rfc_s(SipRFCHeader::Via).unwrap();
    assert_eq!(via.value.tag(SipHeaderTagType::ProtocolName).unwrap(), "SIP".as_bytes());
    assert_eq!(via.value.tag(SipHeaderTagType::ProtocolVersion).unwrap(), "2.0".as_bytes());
    assert_eq!(via.value.tag(SipHeaderTagType::ProtocolTransport).unwrap(), "UDP".as_bytes());
    assert_eq!(via.value.tag(SipHeaderTagType::Host).unwrap(), "funky.example.com".as_bytes());
    assert_eq!(via.param(b"branch"), Some(Some("z9hG4bKkdjuw".as_bytes())));
}

#[test]
fn scenario_record_route_folded() {
    let (_, hdrs) = parse(
        "Record-Route: <sip:server10.biloxi.com;lr>,\r\n <sip:bigbox3.site3.atlanta.com;lr>\r\n\r\n",
    );
    let rr = hdrs.get_rfc(SipRFCHeader::RecordRoute).unwrap();
    assert_eq!(rr.len(), 2);
    assert_eq!(rr[0].value.sip_uri().unwrap().hostport.host, "server10.biloxi.com".as_bytes());
    assert_eq!(
        rr[1].value.sip_uri().unwrap().hostport.host,
        "bigbox3.site3.atlanta.com".as_bytes()
    );
    assert_eq!(rr[0].value.sip_uri().unwrap().param(b"lr"), Some(None));
    assert_eq!(rr[1].value.sip_uri().unwrap().param(b"lr"), Some(None));
}

#[test]
fn scenario_warning() {
    let (_, hdrs) = parse("Warning: 301 isi.edu \"Incompatible network address type 'E.164'\"\r\n\r\n");
    let w = hdrs.get_rfc_s(SipRFCHeader::Warning).unwrap();
    assert_eq!(w.value.tag(SipHeaderTagType::WarnCode).unwrap(), "301".as_bytes());
    assert_eq!(w.value.tag(SipHeaderTagType::WarnAgent).unwrap(), "isi.edu".as_bytes());
    assert_eq!(
        w.value.tag(SipHeaderTagType::WarnText).unwrap(),
        "Incompatible network address type 'E.164'".as_bytes()
    );
}

#[test]
fn scenario_retry_after() {
    let (_, hdrs) = parse("Retry-After: 18000 (I'm in a meeting) ;duration=3600\r\n\r\n");
    let r = hdrs.get_rfc_s(SipRFCHeader::RetryAfter).unwrap();
    assert_eq!(r.value.tag(SipHeaderTagType::Seconds).unwrap(), "18000".as_bytes());
    assert_eq!(r.value.tag(SipHeaderTagType::Comment).unwrap(), "I'm in a meeting".as_bytes());
    assert_eq!(r.param(b"duration"), Some(Some("3600".as_bytes())));
}

#[test]
fn scenario_compact_to() {
    let (_, hdrs) = parse("t: David <sip:davidko@biloxi.com>;tag=99sa0xk\r\n\r\n");
    let to = hdrs.get_rfc_s(SipRFCHeader::To).unwrap();
    assert_eq!(to.value.vstr, "David <sip:davidko@biloxi.com>".as_bytes());
    assert_eq!(to.value.tag(SipHeaderTagType::DisplayName).unwrap(), "David".as_bytes());
    assert_eq!(to.value.sip_uri().unwrap().user_info().unwrap().value, "davidko".as_bytes());
    assert_eq!(to.param(b"tag"), Some(Some("99sa0xk".as_bytes())));
}

#[test]
fn scenario_unterminated_quote() {
    assert_eq!(
        take_qutoed_string("\"never closed".as_bytes()).unwrap_err(),
        SipParseError::UnterminatedQuotedString
    );
    assert_eq!(
        SipHeaders::parse("Warning: 301 isi.edu \"never closed\r\n\r\n".as_bytes()).unwrap_err(),
        SipParseError::UnterminatedQuotedString
    );
}

#[test]
fn quoted_string_stops_at_header_end() {
    assert_eq!(
        take_qutoed_string("\"abc\r\nX: \"y\"\r\n".as_bytes()).unwrap_err(),
        SipParseError::UnterminatedQuotedString
    );
    let (rest, q) = take_qutoed_string("\"abc\r\n def\" \r\n".as_bytes()).unwrap();
    assert_eq!(q, "abc\r\n def".as_bytes());
    assert_eq!(rest, "\r\n".as_bytes());
}
