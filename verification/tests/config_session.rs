use instapi360_cloud::config::{Platform, Region};
use instapi360_cloud::{PageCursor, Session};

#[test]
fn region_hosts() {
    assert_eq!(Region::Global.openapi_base(), "https://openapi-g.insta360.com");
    assert_eq!(Region::Cn.openapi_base(), "https://openapi.insta360.com");
    assert_eq!(Region::Test.openapi_base(), "https://openapi-test.insta360.com");
    assert_eq!(Region::Global.cloud_base(), "https://service-fra.insta360.com");
    assert_eq!(Region::Cn.cloud_base(), "https://service.insta360.com");
    assert_eq!(Region::Test.cloud_base(), "https://service-test.insta360.com");
    for r in [Region::Global, Region::Cn, Region::Test] {
        assert_ne!(r.openapi_base(), r.cloud_base());
    }
    assert_eq!(Region::default(), Region::Global);
}

#[test]
fn mainland_flag_only_for_cn() {
    assert_eq!(Region::Cn.mainland_flag(), "1");
    assert_eq!(Region::Global.mainland_flag(), "0");
    assert_eq!(Region::Test.mainland_flag(), "0");
}

#[test]
fn platform_header_values() {
    assert_eq!(Platform::Windows.header_value(), "pc/windows");
    assert_eq!(Platform::Android.header_value(), "android");
}

#[test]
fn session_from_token_never_expires() {
    let s = Session::from_token("tok");
    assert_eq!(s.user_token, "tok");
    assert!(s.refresh_token.is_none() && s.user_id.is_none() && s.expires_at.is_none());
    assert!(!s.is_expired(i64::MIN));
    assert!(!s.is_expired(i64::MAX));
}

#[test]
fn expiry_is_inclusive_and_permanent() {
    let mut s = Session::from_token("tok");
    s.expires_at = Some(100);
    assert!(!s.is_expired(99));
    assert!(s.is_expired(100));
    assert!(s.is_expired(101));
}

#[test]
fn renewal_keeps_refresh_token_and_user() {
    let mut s = Session::from_token("old");
    s.refresh_token = Some("r".to_string());
    s.user_id = Some("u".to_string());
    s.expires_at = Some(5);
    let n = s.renewed("new".to_string(), Some(99));
    assert_eq!(n.user_token, "new");
    assert_eq!(n.expires_at, Some(99));
    assert_eq!(n.refresh_token.as_deref(), Some("r"));
    assert_eq!(n.user_id.as_deref(), Some("u"));
}

#[test]
fn cursor_pages() {
    let c = PageCursor::first(50);
    assert_eq!(c, PageCursor { page: 1, count: 50 });
    assert_eq!(c.next(), PageCursor { page: 2, count: 50 });
    assert_eq!(c.next().next().page, 3);
    assert_eq!(PageCursor::default(), PageCursor { page: 0, count: 0 });
}
