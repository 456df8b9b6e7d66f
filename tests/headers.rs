use sipmsg::{RequestUriScheme, SipHeaderTagType, SipHeaderValueType, SipHeaders, SipRFCHeader};

#[test]
fn parse_headers() {
    let parse_headers_result = SipHeaders::parse(
        "t: David <sip:davidko@biloxi.com>;tag=99sa0xk\r\n\
         From: caller <sip:caller2@example.com>;tag=323\r\n\
         Max-Forwards: 70\r\n\
         Call-ID: lwsdisp.1234abcd@funky.example.com\r\n\
         CSeq: 60 OPTIONS\r\n\
         e: tar\r\n\
         c: text/html; charset=ISO-8859-4\r\n\
         Content-Language: fr\r\n\
         ExtensionHeader: value;param=false\r\n\
         Authorization: Digest username=\"Alice\", realm=\"atlanta.com\" \r\n\
         \t,nonce=\"84a4cc6f3082121f32b42a2187831a9e\",\r\n \
         response=\"7587245234b3434cc3412213e5f113a5432\"\r\n\
         Content-Disposition: attachment; filename=smime.p7s; handling=required\r\n\
         l: 8\r\n\
         Proxy-Require: foo;boo\r\n\
         date: Sat, 15 Oct 2005 04:44:56 GMT\r\n\
         Expires: 5\r\n\
         Error-Info: <sip:not-in-service-recording@atlanta.com> \r\n\
         In-Reply-To: 70710@saturn.bell-tel.com, 17320@saturn.bell-tel.com\r\n\
         OrganizaTion: Boxes by Bob\r\n nextline\r\n\
         Priority: non-urgent\r\n\
         Proxy-Authenticate: Digest realm=\"atlanta.com\",\r\n \
         domain=\"sip:ss1.carrier.com\", qop=\"auth\", \r\n \
         nonce=\"f84f1cec41e6cbe5aea9c8e88d359\", \r\n \
         opaque=\"\", stale=FALSE, algorithm=MD5\r\n\
         Proxy-Authorization: Digest username=\"Alice\", realm=\"atlanta.com\", \r\n \
         nonce=\"c60f3082ee1212b402a21831ae\", \r\n \
         response=\"245f23415f11432b3434341c022\" \r\n\
         Record-Route: <sip:server10.biloxi.com;lr>,\r\n \
                    <sip:bigbox3.site3.atlanta.com;lr>\r\n\
         Route: <sip:alice@atlanta.com>,<sip:carol@chicago.com>\r\n\
         Reply-To: Bob <sip:bob@biloxi.com>\r\n\
         Require: 100rel\r\n\
         Retry-After: 18000 (I'm in a meeting) ;duration=3600\r\n\
         Server: FPBX-2.11.0(11.6.0)\r\n\
         S: I know you're there, pick up the phone and talk to me!\r\n\
         User-Agent: MxSipApp/4.4.11.69 MxSF/v3.2.7.30\r\n\
         k: 100rel\r\n\
         unsupported:   100rel\r\n\
         MIME-Version: 1.0\r\n\
         Min-Expires: 60\r\n\
         Timestamp: 54\r\n\
         WWW-Authenticate: Digest realm=\"atlanta.com\",\r\n \
            domain=\"sip:boxesbybob.com\", qop=\"auth\",\r\n \
            nonce=\"f84f1cec41e6cbe5aea9c8e88d359\",\r\n \
            opaque=\"\", stale=FALSE, algorithm=MD5\r\n\
         Warning: 301 isi.edu \"Incompatible network address type 'E.164'\"\r\n\
         V: SIP/2.0/UDP funky.example.com;branch=z9hG4bKkdjuw\r\n\r\nsomebody"
            .as_bytes(),
    );

    let (input, hdrs) = parse_headers_result.unwrap();
    assert_eq!(hdrs.len(), 37);

    let to_hdr = hdrs.get_rfc_s(SipRFCHeader::To).unwrap();
    assert_eq!(to_hdr.value.vstr, "David <sip:davidko@biloxi.com>".as_bytes());
    assert_eq!(to_hdr.param(b"tag"),
        Some(Some("99sa0xk".as_bytes())));
    assert_eq!(
        to_hdr.value.sip_uri().unwrap().scheme,
        RequestUriScheme::SIP
    );
    assert_eq!(
        to_hdr.value.sip_uri().unwrap().user_info().unwrap().value,
        "davidko".as_bytes()
    );

    assert_eq!(to_hdr.value.sip_uri().unwrap().hostport.host, "biloxi.com".as_bytes());

    let from_hdr = hdrs.get_rfc_s(SipRFCHeader::From).unwrap();
    assert_eq!(from_hdr.value.vstr, "caller <sip:caller2@example.com>".as_bytes());
    assert_eq!(from_hdr.param(b"tag"),
        Some(Some("323".as_bytes())));

    assert_eq!(
        from_hdr.value.tag(SipHeaderTagType::DisplayName).unwrap(),
        b"caller"
    );
    assert_eq!(
        from_hdr.value.sip_uri().unwrap().scheme,
        RequestUriScheme::SIP
    );
    assert_eq!(
        from_hdr.value.sip_uri().unwrap().user_info().unwrap().value,
        "caller2".as_bytes()
    );
    assert_eq!(
        from_hdr.value.sip_uri().unwrap().hostport.host,
        "example.com".as_bytes()
    );

    let max_forwards_header = hdrs.get_rfc_s(SipRFCHeader::MaxForwards).unwrap();
    assert_eq!(max_forwards_header.value.vstr, "70".as_bytes());
    assert!(!max_forwards_header.has_params());
    assert_eq!(max_forwards_header.value.vtype, SipHeaderValueType::Digit);

    assert_eq!(
        hdrs.get_rfc_s(SipRFCHeader::CallID).unwrap().value.vstr,
        "lwsdisp.1234abcd@funky.example.com".as_bytes()
    );
    assert!(!hdrs.get_rfc_s(SipRFCHeader::CallID).unwrap().has_params());

    let cseq_header = hdrs.get_rfc_s(SipRFCHeader::CSeq).unwrap();
    assert_eq!(cseq_header.value.vstr, "60 OPTIONS".as_bytes());
    assert!(!hdrs.get_rfc_s(SipRFCHeader::CSeq).unwrap().has_params());
    assert_eq!(
        cseq_header.value.tag(SipHeaderTagType::Number).unwrap(),
        b"60"
    );
    assert_eq!(
        cseq_header.value.tag(SipHeaderTagType::Method).unwrap(),
        b"OPTIONS"
    );

    assert_eq!(hdrs.get_ext_s(b"ExtensionHeader").unwrap().value.vstr, "value;param=false".as_bytes());

    let via_hdr = hdrs.get_rfc_s(SipRFCHeader::Via).unwrap();
    assert_eq!(via_hdr.value.vstr, "SIP/2.0/UDP funky.example.com".as_bytes());
    assert_eq!(
        via_hdr.param(b"branch"),
        Some(Some("z9hG4bKkdjuw".as_bytes()))
    );

    assert_eq!(
        via_hdr.value.tag(SipHeaderTagType::ProtocolName).unwrap(),
        b"SIP"
    );
    assert_eq!(
        via_hdr.value.tag(SipHeaderTagType::ProtocolVersion).unwrap(),
        b"2.0"
    );
    assert_eq!(
        via_hdr.value.tag(SipHeaderTagType::ProtocolTransport).unwrap(),
        b"UDP"
    );
    assert_eq!(
        via_hdr.value.tag(SipHeaderTagType::Host).unwrap(),
        b"funky.example.com"
    );
    let auth_val = &hdrs.get_rfc_s(SipRFCHeader::Authorization).unwrap().value;
    assert_eq!(
        auth_val.vstr,
        "Digest username=\"Alice\", realm=\"atlanta.com\" \r\n\
        \t,nonce=\"84a4cc6f3082121f32b42a2187831a9e\",\r\n \
        response=\"7587245234b3434cc3412213e5f113a5432\"".as_bytes()
    );
    assert_eq!(
        auth_val.tag(SipHeaderTagType::Username).unwrap(),
        b"Alice"
    );
    assert_eq!(
        auth_val.tag(SipHeaderTagType::Realm).unwrap(),
        b"atlanta.com"
    );
    assert_eq!(
        auth_val.tag(SipHeaderTagType::Nonce).unwrap(),
        b"84a4cc6f3082121f32b42a2187831a9e"
    );
    assert_eq!(
        auth_val.tag(SipHeaderTagType::Dresponse).unwrap(),
        "7587245234b3434cc3412213e5f113a5432".as_bytes()
    );

    let content_disp_hdr = &hdrs.get_rfc_s(SipRFCHeader::ContentDisposition).unwrap();

    assert_eq!(content_disp_hdr.value.vstr, "attachment".as_bytes());
    assert_eq!(
        content_disp_hdr.param(b"filename").unwrap(),
        Some("smime.p7s".as_bytes())
    );
    assert_eq!(
        content_disp_hdr.param(b"handling").unwrap(),
        Some("required".as_bytes())
    );

    let content_language = &hdrs.get_rfc_s(SipRFCHeader::ContentLanguage).unwrap();
    assert_eq!(content_language.value.vstr, "fr".as_bytes());

    let content_encoding = &hdrs.get_rfc_s(SipRFCHeader::ContentEncoding).unwrap();
    assert_eq!(content_encoding.value.vstr, "tar".as_bytes());

    let content_length = &hdrs.get_rfc_s(SipRFCHeader::ContentLength).unwrap();
    assert_eq!(content_length.value.vstr, "8".as_bytes());

    let content_type = &hdrs.get_rfc_s(SipRFCHeader::ContentType).unwrap();
    assert_eq!(content_type.value.vstr, "text/html".as_bytes());
    assert_eq!(
        content_type.param(b"charset").unwrap(),
        Some("ISO-8859-4".as_bytes())
    );

    let date_hdr = &hdrs.get_rfc_s(SipRFCHeader::Date).unwrap();
    assert_eq!(date_hdr.value.vstr, "Sat, 15 Oct 2005 04:44:56 GMT".as_bytes());

    let error_info = &hdrs.get_rfc_s(SipRFCHeader::ErrorInfo).unwrap();
    assert_eq!(
        error_info.value.tag(SipHeaderTagType::AbsoluteURI).unwrap(),
        "sip:not-in-service-recording@atlanta.com".as_bytes()
    );
    assert_eq!(
        error_info.value.vstr,
        "<sip:not-in-service-recording@atlanta.com>".as_bytes()
    );

    let expires_hdr = &hdrs.get_rfc_s(SipRFCHeader::Expires).unwrap();
    assert_eq!(expires_hdr.value.vstr, "5".as_bytes());

    let in_reply_hdrs = &hdrs.get_rfc(SipRFCHeader::InReplyTo).unwrap();
    assert_eq!(in_reply_hdrs[0].value.vstr, "70710@saturn.bell-tel.com".as_bytes());
    assert_eq!(
        in_reply_hdrs[0].value.tag(SipHeaderTagType::ID).unwrap(),
        b"70710"
    );
    assert_eq!(
        in_reply_hdrs[0].value.tag(SipHeaderTagType::Host).unwrap(),
        b"saturn.bell-tel.com"
    );
    assert_eq!(in_reply_hdrs[1].value.vstr, "17320@saturn.bell-tel.com".as_bytes());
    assert_eq!(
        in_reply_hdrs[1].value.tag(SipHeaderTagType::ID).unwrap(),
        b"17320"
    );
    assert_eq!(
        in_reply_hdrs[1].value.tag(SipHeaderTagType::Host).unwrap(),
        b"saturn.bell-tel.com"
    );

    let organization_header = &hdrs.get_rfc_s(SipRFCHeader::Organization).unwrap();
    assert_eq!(organization_header.value.vstr, "Boxes by Bob\r\n nextline".as_bytes());

    let priority_hdr = &hdrs.get_rfc_s(SipRFCHeader::Priority).unwrap();
    assert_eq!(priority_hdr.value.vstr, "non-urgent".as_bytes());

    let proxy_auth = &hdrs.get_rfc_s(SipRFCHeader::ProxyAuthenticate).unwrap();
    assert_eq!(
        proxy_auth.value.vstr,
        "Digest realm=\"atlanta.com\",\r\n \
    domain=\"sip:ss1.carrier.com\", qop=\"auth\", \r\n \
    nonce=\"f84f1cec41e6cbe5aea9c8e88d359\", \r\n \
    opaque=\"\", stale=FALSE, algorithm=MD5".as_bytes()
    );
    assert_eq!(
        proxy_auth.value.tag(SipHeaderTagType::AuthSchema).unwrap(),
        b"Digest"
    );
    assert_eq!(
        proxy_auth.value.tag(SipHeaderTagType::Realm).unwrap(),
        b"atlanta.com"
    );
    assert_eq!(
        proxy_auth.value.tag(SipHeaderTagType::Domain).unwrap(),
        b"sip:ss1.carrier.com"
    );
    assert_eq!(
        proxy_auth.value.tag(SipHeaderTagType::QopValue).unwrap(),
        b"auth"
    );
    assert_eq!(
        proxy_auth.value.tag(SipHeaderTagType::Nonce).unwrap(),
        b"f84f1cec41e6cbe5aea9c8e88d359"
    );
    assert_eq!(
        proxy_auth.value.tag(SipHeaderTagType::Opaque).unwrap(),
        b""
    );
    assert_eq!(
        proxy_auth.value.tag(SipHeaderTagType::Stale).unwrap(),
        b"FALSE"
    );
    assert_eq!(
        proxy_auth.value.tag(SipHeaderTagType::Algorithm).unwrap(),
        b"MD5"
    );

    let proxy_auth = &hdrs.get_rfc_s(SipRFCHeader::ProxyAuthorization).unwrap();
    assert_eq!(
        proxy_auth.value.vstr,
        "Digest username=\"Alice\", realm=\"atlanta.com\", \r\n \
         nonce=\"c60f3082ee1212b402a21831ae\", \r\n \
         response=\"245f23415f11432b3434341c022\"".as_bytes()
    );
    assert_eq!(
        proxy_auth.value.tag(SipHeaderTagType::AuthSchema).unwrap(),
        b"Digest"
    );
    assert_eq!(
        proxy_auth.value.tag(SipHeaderTagType::Username).unwrap(),
        b"Alice"
    );
    assert_eq!(
        proxy_auth.value.tag(SipHeaderTagType::Nonce).unwrap(),
        b"c60f3082ee1212b402a21831ae"
    );
    assert_eq!(
        proxy_auth.value.tag(SipHeaderTagType::Dresponse).unwrap(),
        b"245f23415f11432b3434341c022"
    );

    let proxy_require_hdr = &hdrs.get_rfc_s(SipRFCHeader::ProxyRequire).unwrap();
    assert_eq!(proxy_require_hdr.value.vstr, "foo".as_bytes());
    assert_eq!(proxy_require_hdr.param(b"boo"),
        Some(None));

    let record_route_headers = &hdrs.get_rfc(SipRFCHeader::RecordRoute).unwrap();

    assert_eq!(
        record_route_headers[0].value.vstr,
        "<sip:server10.biloxi.com;lr>".as_bytes()
    );
    assert_eq!(
        record_route_headers[0].value.sip_uri().unwrap().scheme,
        RequestUriScheme::SIP
    );
    assert_eq!(
        record_route_headers[0]
            .value
            .sip_uri()
            .unwrap()
            .hostport
            .host,
        "server10.biloxi.com".as_bytes()
    );
    assert_eq!(
        record_route_headers[1]
            .value
            .sip_uri()
            .unwrap()
            .param(b"lr"),
        Some(None)
    );
    assert_eq!(
        record_route_headers[1].value.vstr,
        "<sip:bigbox3.site3.atlanta.com;lr>".as_bytes()
    );
    assert_eq!(
        record_route_headers[1].value.sip_uri().unwrap().scheme,
        RequestUriScheme::SIP
    );
    assert_eq!(
        record_route_headers[1]
            .value
            .sip_uri()
            .unwrap()
            .hostport
            .host,
        "bigbox3.site3.atlanta.com".as_bytes()
    );
    assert_eq!(
        record_route_headers[1]
            .value
            .sip_uri()
            .unwrap()
            .param(b"lr"),
        Some(None)
    );

    let route_headers = &hdrs.get_rfc(SipRFCHeader::Route).unwrap();

    assert_eq!(route_headers[0].value.vstr, "<sip:alice@atlanta.com>".as_bytes());
    assert_eq!(
        route_headers[0].value.sip_uri().unwrap().scheme,
        RequestUriScheme::SIP
    );
    assert_eq!(
        route_headers[0].value.sip_uri().unwrap().hostport.host,
        "atlanta.com".as_bytes()
    );
    assert_eq!(
        route_headers[0]
            .value
            .sip_uri()
            .unwrap()
            .user_info()
            .unwrap()
            .value,
        "alice".as_bytes()
    );
    assert_eq!(route_headers[1].value.vstr, "<sip:carol@chicago.com>".as_bytes());
    assert_eq!(
        route_headers[1].value.sip_uri().unwrap().scheme,
        RequestUriScheme::SIP
    );
    assert_eq!(
        route_headers[1].value.sip_uri().unwrap().hostport.host,
        "chicago.com".as_bytes()
    );
    assert_eq!(
        route_headers[1]
            .value
            .sip_uri()
            .unwrap()
            .user_info()
            .unwrap()
            .value,
        "carol".as_bytes()
    );
    assert!(!route_headers[1].value.sip_uri().unwrap().has_params());

    let reply_to_header = &hdrs.get_rfc_s(SipRFCHeader::ReplyTo).unwrap();
    assert_eq!(reply_to_header.value.vstr, "Bob <sip:bob@biloxi.com>".as_bytes());
    assert_eq!(
        reply_to_header.value.tag(SipHeaderTagType::DisplayName).unwrap(),
        b"Bob"
    );
    assert_eq!(
        reply_to_header.value.sip_uri().unwrap().scheme,
        RequestUriScheme::SIP
    );
    assert_eq!(
        reply_to_header
            .value
            .sip_uri()
            .unwrap()
            .user_info()
            .unwrap()
            .value,
        "bob".as_bytes()
    );
    assert_eq!(
        reply_to_header.value.sip_uri().unwrap().hostport.host,
        "biloxi.com".as_bytes()
    );

    let require_header = &hdrs.get_rfc_s(SipRFCHeader::Require).unwrap();
    assert_eq!(require_header.value.vstr, "100rel".as_bytes());

    let retry_after_hdr = &hdrs.get_rfc_s(SipRFCHeader::RetryAfter).unwrap();
    assert_eq!(retry_after_hdr.value.vstr, "18000 (I'm in a meeting)".as_bytes());
    assert_eq!(
        retry_after_hdr.value.tag(SipHeaderTagType::Comment).unwrap(),
        "I'm in a meeting".as_bytes()
    );
    assert_eq!(
        retry_after_hdr.value.tag(SipHeaderTagType::Seconds).unwrap(),
        "18000".as_bytes()
    );

    assert_eq!(
        retry_after_hdr.param(b"duration"),
        Some(Some("3600".as_bytes()))
    );

    let server_hdr = &hdrs.get_rfc_s(SipRFCHeader::Server).unwrap();
    assert_eq!(server_hdr.value.vstr, "FPBX-2.11.0(11.6.0)".as_bytes());

    let user_agent_hdr = &hdrs.get_rfc_s(SipRFCHeader::UserAgent).unwrap();
    assert_eq!(
        user_agent_hdr.value.vstr,
        "MxSipApp/4.4.11.69 MxSF/v3.2.7.30".as_bytes()
    );

    let subject_hdr = &hdrs.get_rfc_s(SipRFCHeader::Subject).unwrap();
    assert_eq!(
        subject_hdr.value.vstr,
        "I know you're there, pick up the phone and talk to me!".as_bytes()
    );

    let supported_hdr = &hdrs.get_rfc_s(SipRFCHeader::Supported).unwrap();
    assert_eq!(supported_hdr.value.vstr, "100rel".as_bytes());

    let unsupported_hdr = &hdrs.get_rfc_s(SipRFCHeader::Unsupported).unwrap();
    assert_eq!(unsupported_hdr.value.vstr, "100rel".as_bytes());

    let supported_hdr = &hdrs.get_rfc_s(SipRFCHeader::MimeVersion).unwrap();
    assert_eq!(supported_hdr.value.vstr, "1.0".as_bytes());

    assert_eq!(
        supported_hdr.value.tag(SipHeaderTagType::Major).unwrap(),
        b"1"
    );
    assert_eq!(
        supported_hdr.value.tag(SipHeaderTagType::Minor).unwrap(),
        b"0"
    );

    let min_exp_hdr = &hdrs.get_rfc_s(SipRFCHeader::MinExpires).unwrap();
    assert_eq!(min_exp_hdr.value.vstr, "60".as_bytes());

    let timestamp_hdr = &hdrs.get_rfc_s(SipRFCHeader::Timestamp).unwrap();
    assert_eq!(timestamp_hdr.value.vstr, "54".as_bytes());
    assert_eq!(
        timestamp_hdr.value.tag(SipHeaderTagType::TimeVal).unwrap(),
        b"54"
    );

    let warn_hdr = &hdrs.get_rfc_s(SipRFCHeader::Warning).unwrap();
    assert_eq!(
        warn_hdr.value.vstr,
        "301 isi.edu \"Incompatible network address type 'E.164'\"".as_bytes()
    );

    assert_eq!(
        warn_hdr.value.vstr,
        "301 isi.edu \"Incompatible network address type 'E.164'\"".as_bytes()
    );
    assert_eq!(
        warn_hdr.value.tag(SipHeaderTagType::WarnCode).unwrap(),
        b"301"
    );
    assert_eq!(
        warn_hdr.value.tag(SipHeaderTagType::WarnAgent).unwrap(),
        b"isi.edu"
    );
    assert_eq!(
        warn_hdr.value.tag(SipHeaderTagType::WarnText).unwrap(),
        "Incompatible network address type 'E.164'".as_bytes()
    );

    let www_auth = &hdrs.get_rfc_s(SipRFCHeader::WWWAuthenticate).unwrap();
    assert_eq!(
        www_auth.value.vstr,
        "Digest realm=\"atlanta.com\",\r\n \
        domain=\"sip:boxesbybob.com\", qop=\"auth\",\r\n \
        nonce=\"f84f1cec41e6cbe5aea9c8e88d359\",\r\n \
        opaque=\"\", stale=FALSE, algorithm=MD5".as_bytes()
    );
    assert_eq!(
        www_auth.value.tag(SipHeaderTagType::AuthSchema).unwrap(),
        b"Digest"
    );
    assert_eq!(
        www_auth.value.tag(SipHeaderTagType::Realm).unwrap(),
        b"atlanta.com"
    );
    assert_eq!(
        www_auth.value.tag(SipHeaderTagType::Domain).unwrap(),
        b"sip:boxesbybob.com"
    );
    assert_eq!(
        www_auth.value.tag(SipHeaderTagType::QopValue).unwrap(),
        b"auth"
    );
    assert_eq!(
        www_auth.value.tag(SipHeaderTagType::Nonce).unwrap(),
        b"f84f1cec41e6cbe5aea9c8e88d359"
    );
    assert_eq!(
        www_auth.value.tag(SipHeaderTagType::Opaque).unwrap(),
        b""
    );
    assert_eq!(
        www_auth.value.tag(SipHeaderTagType::Stale).unwrap(),
        b"FALSE"
    );
    assert_eq!(
        www_auth.value.tag(SipHeaderTagType::Algorithm).unwrap(),
        b"MD5"
    );

    assert_eq!(input, "\r\nsomebody".as_bytes());
}
