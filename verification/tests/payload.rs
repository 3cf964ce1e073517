use instapi360_cloud::payload::{
    as_str, as_u64, classify, classify_lowered, jwt_exp_claim, jwt_payload, media_from_detail,
    page_has_next, parse_file_parts, parse_media, parse_media_page, parts_from_download, profile_from_data,
};
use instapi360_cloud::{CloudError, Json, JsonNumber, MediaKind, PageCursor};

fn s(x: &str) -> Json {
    Json::Str(x.to_string())
}

fn n(x: u64) -> Json {
    Json::Number(JsonNumber::PosInt(x))
}

fn obj(members: Vec<(&str, Json)>) -> Json {
    Json::Object(members.into_iter().map(|(k, v)| (k.to_string(), v)).collect())
}

#[test]
fn lenient_lookup_takes_first_usable_key() {
    let v = obj(vec![("a", n(1)), ("b", s("x")), ("c", s("y"))]);
    assert_eq!(as_str(&v, &["a", "b", "c"]), Some("x".to_string()));
    assert_eq!(as_str(&v, &["z"]), None);
    assert_eq!(as_u64(&v, &["b", "a"]), Some(1));
    let w = obj(vec![("size", s("+123")), ("bad", s("12x")), ("neg", Json::Number(JsonNumber::NegInt(-4)))]);
    assert_eq!(as_u64(&w, &["size"]), Some(123));
    assert_eq!(as_u64(&w, &["bad", "neg"]), None);
    assert_eq!(as_u64(&obj(vec![("big", s("18446744073709551616"))]), &["big"]), None);
    assert_eq!(as_u64(&obj(vec![("max", s("18446744073709551615"))]), &["max"]), Some(u64::MAX));
    assert_eq!(as_u64(&obj(vec![("e", s(""))]), &["e"]), None);
    assert_eq!(as_u64(&obj(vec![("p", s("+"))]), &["p"]), None);
    assert_eq!(as_str(&s("not an object"), &["a"]), None);
}

#[test]
fn classify_by_extension_then_type() {
    assert_eq!(classify(Some("photo"), "VID_1.INSV"), MediaKind::Insv360);
    assert_eq!(classify(None, "a.JPG"), MediaKind::Photo);
    assert_eq!(classify(None, "a.insp"), MediaKind::Photo);
    assert_eq!(classify(None, "a.dng"), MediaKind::Photo);
    assert_eq!(classify(None, "clip.Mp4"), MediaKind::FlatVideo);
    assert_eq!(classify(Some("image/x"), "x"), MediaKind::Photo);
    assert_eq!(classify(Some("big video"), "x"), MediaKind::FlatVideo);
    assert_eq!(classify(Some("audio"), "x"), MediaKind::Other);
    assert_eq!(classify(None, "x"), MediaKind::Other);
    assert_eq!(classify_lowered(None, "X.INSV"), MediaKind::Other);
}

#[test]
fn parts_from_paths_list() {
    let v = obj(vec![(
        "paths",
        Json::Array(vec![
            obj(vec![("url", s("https://cdn/a/VID_00.insv?k=1")), ("size", n(10)), ("md5", s("m"))]),
            obj(vec![("name", s("no url"))]),
            obj(vec![("downloadUrl", s("https://cdn/b/LRV_01.lrv")), ("fileName", s("proxy.lrv")), ("fileSize", s("7"))]),
        ]),
    )]);
    let parts = parse_file_parts(&v);
    assert_eq!(parts.len(), 2);
    assert_eq!(parts[0].file_name, "VID_00.insv?k=1");
    assert_eq!(parts[0].size, 10);
    assert_eq!(parts[0].md5.as_deref(), Some("m"));
    assert_eq!(parts[1].file_name, "proxy.lrv");
    assert_eq!(parts[1].size, 7);
    assert_eq!(parts[1].url, "https://cdn/b/LRV_01.lrv");
}

#[test]
fn parts_nested_under_data_and_single_shape() {
    let v = obj(vec![("data", obj(vec![("files", Json::Array(vec![obj(vec![("url", s("u/f.mp4"))])]))]))]);
    let parts = parse_file_parts(&v);
    assert_eq!(parts.len(), 1);
    assert_eq!(parts[0].file_name, "f.mp4");
    assert_eq!(parts[0].size, 0);
    let single = obj(vec![("download_url", s("https://x/y/z.mp4")), ("mediaName", s("clip")), ("downOriginalSize", n(99)), ("coverMd5", s("c"))]);
    let parts = parse_file_parts(&single);
    assert_eq!(parts.len(), 1);
    assert_eq!(parts[0].file_name, "clip");
    assert_eq!(parts[0].size, 99);
    assert_eq!(parts[0].md5.as_deref(), Some("c"));
    assert!(parse_file_parts(&obj(vec![])).is_empty());
}

#[test]
fn download_without_parts_is_an_api_error() {
    match parts_from_download(&obj(vec![])) {
        Err(CloudError::Api { code, message }) => {
            assert_eq!(code, 0);
            assert_eq!(message, "download response had no file parts");
        }
        other => panic!("unexpected {:?}", other),
    }
    let ok = parts_from_download(&obj(vec![("url", s("a/b"))])).unwrap();
    assert_eq!(ok[0].file_name, "b");
}

#[test]
fn media_item_fields() {
    let v = obj(vec![
        ("mediaId", s("M1")),
        ("mediaType", s("video")),
        ("mediaSize", s("2048")),
        ("createTime", n(1787429512249)),
        ("cameraType", s("X5")),
        ("fileItems", Json::Array(vec![s("VID_00.insv"), n(3), s("VID_10.insv")])),
    ]);
    let m = parse_media(&v).unwrap();
    assert_eq!(m.id.0, "M1");
    assert_eq!(m.name, "M1");
    assert_eq!(m.kind, MediaKind::FlatVideo);
    assert_eq!(m.size_original, 2048);
    assert_eq!(m.time_unix, Some(1787429512));
    assert_eq!(m.camera.as_deref(), Some("X5"));
    assert_eq!(m.parts.len(), 2);
    assert_eq!(m.parts[1].file_name, "VID_10.insv");
    assert_eq!(m.parts[1].url, "");
    let secs = parse_media(&obj(vec![("id", s("i")), ("name", s("a.insv")), ("mediaTime", n(1700000000))])).unwrap();
    assert_eq!(secs.time_unix, Some(1700000000));
    assert_eq!(secs.kind, MediaKind::Insv360);
    assert!(parse_media(&obj(vec![("name", s("x"))])).is_none());
}

#[test]
fn detail_without_id_is_an_api_error() {
    match media_from_detail(&obj(vec![])) {
        Err(CloudError::Api { code: 0, message }) => assert_eq!(message, "detail had no media"),
        other => panic!("unexpected {:?}", other),
    }
}

#[test]
fn page_with_total() {
    let v = obj(vec![
        ("list", Json::Array(vec![obj(vec![("mediaId", s("a"))]), obj(vec![("x", n(1))]), obj(vec![("mediaId", s("b"))])])),
        ("totalCount", n(5)),
    ]);
    let p = parse_media_page(&v, &PageCursor::first(2)).unwrap();
    assert_eq!(p.items.len(), 2);
    assert_eq!(p.total, Some(5));
    assert_eq!(p.next, Some(PageCursor { page: 2, count: 2 }));
    let last = parse_media_page(&v, &PageCursor { page: 3, count: 2 }).unwrap();
    assert_eq!(last.next, None);
}

#[test]
fn page_without_total_continues_when_full() {
    let arr = Json::Array(vec![obj(vec![("id", s("a"))]), obj(vec![("id", s("b"))])]);
    let p = parse_media_page(&arr, &PageCursor::first(2)).unwrap();
    assert_eq!(p.total, None);
    assert_eq!(p.next, Some(PageCursor { page: 2, count: 2 }));
    let p = parse_media_page(&arr, &PageCursor::first(3)).unwrap();
    assert_eq!(p.next, None);
    let empty = parse_media_page(&obj(vec![("total", n(10))]), &PageCursor::first(5)).unwrap();
    assert!(empty.items.is_empty());
    assert_eq!(empty.next, None);
}

#[test]
fn profile_nested_under_account() {
    let raw = obj(vec![("account", obj(vec![("openId", s("o")), ("email", s("e@x")), ("nickname", s("nick"))]))]);
    let p = profile_from_data(&raw);
    assert_eq!(p.user_id.as_deref(), Some("o"));
    assert_eq!(p.email.as_deref(), Some("e@x"));
    assert_eq!(p.name.as_deref(), Some("nick"));
    let flat = profile_from_data(&obj(vec![("userId", s("1"))]));
    assert_eq!(flat.user_id.as_deref(), Some("1"));
    assert!(flat.email.is_none());
}

#[test]
fn jwt_payload_and_exp() {
    let token = "eyJhbGciOiJIUzI1NiJ9.eyJleHAiOjE3MDAwMDAwMDAsIm9wZW5JZCI6InUxIn0.sig";
    let bytes = jwt_payload(token).unwrap();
    assert_eq!(bytes, br#"{"exp":1700000000,"openId":"u1"}"#.to_vec());
    assert!(jwt_payload("nodots").is_none());
    assert!(jwt_payload("a.!!!.c").is_none());
    assert_eq!(jwt_payload("a.").unwrap(), Vec::<u8>::new());
    let claims = obj(vec![("exp", n(1700000000))]);
    assert_eq!(jwt_exp_claim(&claims), Some(1700000000));
    assert_eq!(jwt_exp_claim(&obj(vec![("exp", Json::Number(JsonNumber::NegInt(-3)))])), Some(-3));
    assert_eq!(jwt_exp_claim(&obj(vec![("exp", n(u64::MAX))])), None);
    assert_eq!(jwt_exp_claim(&obj(vec![("exp", s("1"))])), None);
}

#[test]
fn successor_page_decision() {
    let v = obj(vec![
        ("list", Json::Array(vec![obj(vec![("mediaId", s("a"))]), obj(vec![("x", n(1))]), obj(vec![("mediaId", s("b"))])])),
        ("totalCount", n(5)),
    ]);
    assert!(page_has_next(&v, &PageCursor::first(2)));
    assert!(!page_has_next(&v, &PageCursor { page: 3, count: 2 }));
    let last = PageCursor { page: u32::MAX, count: 2 };
    assert!(!page_has_next(&v, &last));
    assert_eq!(parse_media_page(&v, &last).unwrap().next, None);
    let arr = Json::Array(vec![obj(vec![("id", s("a"))]), obj(vec![("id", s("b"))])]);
    assert!(page_has_next(&arr, &PageCursor { page: u32::MAX, count: 2 }));
    assert!(!page_has_next(&arr, &PageCursor::first(3)));
}
