use sipmsg::{SipHeaderTagType, SipHeaders, SipRFCHeader};

fn inside(part: &[u8], whole: &[u8]) -> bool {
    let start = whole.as_ptr() as usize;
    let p = part.as_ptr() as usize;
    p >= start && p + part.len() <= start + whole.len()
}

#[test]
fn slices_point_into_the_input() {
    let input = "From: \"Bob\" <sip:bob@biloxi.com:5060;transport=udp>;tag=a1\r\nCSeq: 7 INVITE\r\n\r\nbody";
    let (_, hdrs) = SipHeaders::parse(input.as_bytes()).unwrap();
    for h in hdrs.entries() {
        assert!(inside(h.value.vstr, input.as_bytes()));
        for (_, t) in h.value.tags.iter() {
            assert!(inside(t, input.as_bytes()));
        }
    }
    let from = hdrs.get_rfc_s(SipRFCHeader::From).unwrap();
    let uri = from.value.sip_uri().unwrap();
    assert!(inside(uri.hostport.host, input.as_bytes()));
    assert_eq!(uri.hostport.port, Some("5060".as_bytes()));
    assert_eq!(uri.param(b"transport"), Some(Some("udp".as_bytes())));
    assert_eq!(from.value.tag(SipHeaderTagType::DisplayName).unwrap(), "Bob".as_bytes());
}

#[test]
fn consumed_then_rest_is_the_input() {
    let input = "Max-Forwards: 70\r\nSubject: hi\r\n\r\nthe body".as_bytes();
    let (rest, _) = SipHeaders::parse(input).unwrap();
    let consumed = &input[..input.len() - rest.len()];
    assert_eq!([consumed, rest].concat(), input.to_vec());
    assert_eq!(rest, "\r\nthe body".as_bytes());
}

#[test]
fn header_names_ignore_case() {
    let (_, a) = SipHeaders::parse("cSEQ: 60 OPTIONS\r\n\r\n".as_bytes()).unwrap();
    let (_, b) = SipHeaders::parse("CSeq: 60 OPTIONS\r\n\r\n".as_bytes()).unwrap();
    let ha = a.get_rfc_s(SipRFCHeader::CSeq).unwrap();
    let hb = b.get_rfc_s(SipRFCHeader::CSeq).unwrap();
    assert_eq!(ha.value.vstr, hb.value.vstr);
    assert_eq!(ha.value.tags, hb.value.tags);
    assert_eq!(SipRFCHeader::from_bytes(b"MAX-forwards"), Some(SipRFCHeader::MaxForwards));
}

#[test]
fn compact_alias_expands() {
    let (_, a) = SipHeaders::parse("c: text/html; charset=ISO-8859-4\r\n\r\n".as_bytes()).unwrap();
    let (_, b) =
        SipHeaders::parse("Content-Type: text/html; charset=ISO-8859-4\r\n\r\n".as_bytes()).unwrap();
    let ha = a.get_rfc_s(SipRFCHeader::ContentType).unwrap();
    let hb = b.get_rfc_s(SipRFCHeader::ContentType).unwrap();
    assert_eq!(ha.value.vstr, hb.value.vstr);
    assert_eq!(ha.value.tags, hb.value.tags);
    assert_eq!(ha.params, hb.params);
    assert_eq!(ha.value.tag(SipHeaderTagType::Subtype).unwrap(), "html".as_bytes());
}

#[test]
fn folded_whitespace_is_whitespace() {
    let (_, a) = SipHeaders::parse("Via: SIP/2.0/TCP\r\n client.biloxi.com:5060\r\n\r\n".as_bytes()).unwrap();
    let (_, b) = SipHeaders::parse("Via: SIP/2.0/TCP client.biloxi.com:5060\r\n\r\n".as_bytes()).unwrap();
    let ha = a.get_rfc_s(SipRFCHeader::Via).unwrap();
    let hb = b.get_rfc_s(SipRFCHeader::Via).unwrap();
    assert_eq!(ha.value.tags, hb.value.tags);
    assert_eq!(ha.value.tag(SipHeaderTagType::Port).unwrap(), "5060".as_bytes());
}

#[test]
fn comma_folding_equals_separate_lines() {
    let (_, a) =
        SipHeaders::parse("Route: <sip:alice@atlanta.com>, <sip:carol@chicago.com>\r\n\r\n".as_bytes()).unwrap();
    let (_, b) = SipHeaders::parse(
        "Route: <sip:alice@atlanta.com>\r\nRoute: <sip:carol@chicago.com>\r\n\r\n".as_bytes(),
    )
    .unwrap();
    let ra = a.get_rfc(SipRFCHeader::Route).unwrap();
    let rb = b.get_rfc(SipRFCHeader::Route).unwrap();
    assert_eq!(ra.len(), 2);
    assert_eq!(rb.len(), 2);
    for k in 0..2 {
        assert_eq!(ra[k].value.vstr, rb[k].value.vstr);
        assert_eq!(
            ra[k].value.sip_uri().unwrap().hostport.host,
            rb[k].value.sip_uri().unwrap().hostport.host
        );
    }
    assert_eq!(a.len(), 1);
    assert_eq!(b.len(), 1);
}

#[test]
fn quoted_comma_does_not_split() {
    let (_, hdrs) =
        SipHeaders::parse("Warning: 399 example.com \"one, two, three\"\r\n\r\n".as_bytes()).unwrap();
    let w = hdrs.get_rfc(SipRFCHeader::Warning).unwrap();
    assert_eq!(w.len(), 1);
    assert_eq!(w[0].value.tag(SipHeaderTagType::WarnText).unwrap(), "one, two, three".as_bytes());
    let (_, c) = SipHeaders::parse(
        "Contact: \"Doe, John\" <sip:jd@example.com>, <sip:x@example.org>\r\n\r\n".as_bytes(),
    )
    .unwrap();
    let cs = c.get_rfc(SipRFCHeader::Contact).unwrap();
    assert_eq!(cs.len(), 2);
    assert_eq!(cs[0].value.tag(SipHeaderTagType::DisplayName).unwrap(), "Doe, John".as_bytes());
}
