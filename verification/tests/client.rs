use instapi360_cloud::client::{
    bad_response, check_envelope, check_response, check_unauthorized, endpoint_query, envelope_error, headers_for,
    trace_hex,
};
use instapi360_cloud::config::Region;
use instapi360_cloud::{ClientConfig, CloudClient, CloudError, Endpoint, Envelope, MediaId, PageCursor, Session};

fn header<'a>(h: &'a [(String, String)], name: &str) -> Option<&'a str> {
    h.iter().find(|(n, _)| n == name).map(|(_, v)| v.as_str())
}

#[test]
fn headers_skip_empty_values_and_send_token_twice() {
    let mut cfg = ClientConfig::windows(Region::Cn);
    cfg.equipment_code = "AA:BB".to_string();
    let s = Session::from_token("TOKEN");
    let h = headers_for(&cfg, Some(&s), 0).unwrap();
    assert_eq!(header(&h, "X-APP-VERSION"), Some("6.0.2"));
    assert_eq!(header(&h, "app_traffic"), Some("release"));
    assert_eq!(header(&h, "X-Equipment-Code"), Some("AA:BB"));
    assert_eq!(header(&h, "x-insta360-platform"), Some("pc/windows"));
    assert_eq!(header(&h, "X-Language"), Some("en"));
    assert_eq!(header(&h, "X-MainLand"), Some("1"));
    assert_eq!(header(&h, "Referer"), Some("https://cloud.insta360.com/"));
    assert_eq!(header(&h, "X-Insta360-Trace-Id"), Some("pc6f68261b8937eb46a3d47feb5841ebb7"));
    assert_eq!(header(&h, "Authentication"), Some("TOKEN"));
    assert_eq!(header(&h, "X-User-Token"), Some("TOKEN"));
    assert_eq!(h.len(), 10);
    let anon = headers_for(&ClientConfig::windows(Region::Global), None, 0).unwrap();
    assert_eq!(anon.len(), 7);
    assert_eq!(header(&anon, "X-Equipment-Code"), None);
    assert_eq!(header(&anon, "Authentication"), None);
    assert_eq!(header(&anon, "X-User-Token"), None);
}

#[test]
fn control_characters_in_values_are_refused() {
    let s = Session::from_token("bad\ntoken");
    match headers_for(&ClientConfig::windows(Region::Global), Some(&s), 1) {
        Err(CloudError::Signing(m)) => {
            assert_eq!(m, "bad header value for Authentication: failed to parse header value")
        }
        other => panic!("unexpected {:?}", other),
    }
    let tab = Session::from_token("a\tb");
    assert!(headers_for(&ClientConfig::windows(Region::Global), Some(&tab), 1).is_ok());
}

#[test]
fn trace_ids() {
    assert_eq!(trace_hex(0), "6f68261b8937eb46a3d47feb5841ebb7");
    assert_eq!(trace_hex(7), "2982a8f108f6eb13914a17cf38f4160b");
}

#[test]
fn client_urls_and_queries() {
    let c = CloudClient::new(ClientConfig::windows(Region::Global)).unwrap();
    assert_eq!(c.endpoint_url(&Endpoint::Profile), "https://openapi-g.insta360.com/account/v2/getProfile");
    assert_eq!(c.endpoint_url(&Endpoint::Refresh), "https://openapi-g.insta360.com/account/v2/refreshToken");
    let list = Endpoint::ListMedia(PageCursor { page: 3, count: 50 });
    assert_eq!(c.endpoint_url(&list), "https://service-fra.insta360.com/cloud/service/media/view/list");
    assert_eq!(
        endpoint_query(&list),
        vec![("pageNumber".to_string(), "3".to_string()), ("pageSize".to_string(), "50".to_string())]
    );
    let d = Endpoint::ResolveDownload(MediaId("m9".to_string()));
    assert_eq!(c.endpoint_url(&d), "https://service-fra.insta360.com/cloud/service/media/download");
    assert_eq!(endpoint_query(&d), vec![("mediaId".to_string(), "m9".to_string())]);
    let det = Endpoint::MediaDetail(MediaId("m9".to_string()));
    assert_eq!(c.endpoint_url(&det), "https://service-fra.insta360.com/cloud/service/media/view/detail");
    assert!(endpoint_query(&Endpoint::Profile).is_empty());
    let s = Session::from_token("T");
    let h1 = c.build_headers(Some(&s)).unwrap();
    let h2 = c.build_headers(Some(&s)).unwrap();
    assert_ne!(header(&h1, "X-Insta360-Trace-Id"), header(&h2, "X-Insta360-Trace-Id"));
    assert_eq!(c.config().region, Region::Global);
}

#[test]
fn unauthorized_status_is_auth() {
    match check_unauthorized("https://h/x", 401) {
        Err(e) => {
            assert!(e.is_auth());
            match e {
                CloudError::Auth(m) => assert_eq!(m, "401 from https://h/x"),
                _ => unreachable!(),
            }
        }
        Ok(()) => panic!("401 accepted"),
    }
    assert!(check_unauthorized("u", 200).is_ok());
    assert!(check_unauthorized("u", 403).is_ok());
}

#[test]
fn bad_body_message() {
    let body = "x".repeat(300);
    match bad_response("https://h/p", 502, "502 Bad Gateway", "expected value", &body) {
        CloudError::Api { code, message } => {
            assert_eq!(code, 502);
            assert_eq!(
                message,
                format!("bad response from https://h/p (http 502 Bad Gateway): expected value; body: {}", "x".repeat(200))
            );
        }
        e => panic!("unexpected {:?}", e),
    }
}

#[test]
fn envelopes() {
    let ok: Envelope<u8> = Envelope { code: None, message: None, data: Some(7) };
    assert!(ok.is_ok());
    assert_eq!(check_envelope(ok).unwrap(), 7);
    let zero: Envelope<u8> = Envelope { code: Some(0), message: None, data: None };
    match check_envelope(zero) {
        Err(CloudError::Api { code: 0, message }) => assert_eq!(message, "empty data"),
        other => panic!("unexpected {:?}", other),
    }
    let expired: Envelope<u8> = Envelope { code: Some(7), message: Some("Token EXPIRED".to_string()), data: Some(1) };
    assert!(!expired.is_ok());
    match check_envelope(expired) {
        Err(CloudError::Auth(m)) => assert_eq!(m, "api code 7: Token EXPIRED"),
        other => panic!("unexpected {:?}", other),
    }
    let lower: Envelope<u8> = Envelope { code: Some(3), message: Some("bad token".to_string()), data: None };
    assert!(check_envelope(lower).unwrap_err().is_auth());
    let code401: Envelope<u8> = Envelope { code: Some(401), message: None, data: None };
    match check_envelope(code401) {
        Err(CloudError::Auth(m)) => assert_eq!(m, "api code 401: "),
        other => panic!("unexpected {:?}", other),
    }
    let other: Envelope<u8> = Envelope { code: Some(-5), message: Some("quota".to_string()), data: None };
    match check_envelope(other) {
        Err(CloudError::Api { code: -5, message }) => assert_eq!(message, "quota"),
        e => panic!("unexpected {:?}", e),
    }
    match envelope_error(i64::MIN, "token".to_string(), "token") {
        CloudError::Auth(m) => assert_eq!(m, format!("api code {}: token", i64::MIN)),
        e => panic!("unexpected {:?}", e),
    }
}

#[test]
fn client_from_a_built_stack() {
    let http = reqwest::Client::builder().user_agent("insta360/studio").build().unwrap();
    let c = CloudClient::from_stack(ClientConfig::windows(Region::Cn), http);
    assert_eq!(c.config().region, Region::Cn);
    assert_eq!(c.endpoint_url(&Endpoint::Profile), "https://openapi.insta360.com/account/v2/getProfile");
}

#[test]
fn response_checks_in_order() {
    let ok: Envelope<u8> = Envelope { code: Some(0), message: None, data: Some(3) };
    match check_response("https://h/a", 401, "401 Unauthorized", "{}", Ok(ok)) {
        Err(CloudError::Auth(m)) => assert_eq!(m, "401 from https://h/a"),
        other => panic!("unexpected {:?}", other),
    }
    let bad: Result<Envelope<u8>, String> = Err("expected value".to_string());
    match check_response("https://h/a", 200, "200 OK", "oops", bad) {
        Err(CloudError::Api { code, message }) => {
            assert_eq!(code, 200);
            assert_eq!(message, "bad response from https://h/a (http 200 OK): expected value; body: oops");
        }
        other => panic!("unexpected {:?}", other),
    }
    let ok: Envelope<u8> = Envelope { code: Some(0), message: None, data: Some(3) };
    assert_eq!(check_response("https://h/a", 200, "200 OK", "{}", Ok(ok)).unwrap(), 3);
}
