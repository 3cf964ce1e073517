use instapi360_cloud::cli::{
    build_config, extract_jwts, file_name_from_url, part_is_complete, pick_equipment_code,
    resume_offset, sanitize, smallest, AppConfig, EquipmentCodeStep,
};
use instapi360_cloud::config::{Platform, Region};
use instapi360_cloud::download::{check_download_status, range_header};
use instapi360_cloud::{CloudError, DownloadProgress};

#[test]
fn range_only_when_resuming() {
    assert_eq!(range_header(0), None);
    assert_eq!(range_header(1234).as_deref(), Some("bytes=1234-"));
}

#[test]
fn expired_storage_url_is_auth() {
    match check_download_status(403) {
        Err(CloudError::Auth(m)) => assert_eq!(m, "OSS url expired (403) — re-resolve download"),
        other => panic!("unexpected {:?}", other),
    }
    assert!(check_download_status(206).is_ok());
}

#[test]
fn progress_and_partial_downloads() {
    let mut p = DownloadProgress::start(100, Some(40), 60);
    assert_eq!(p, DownloadProgress { done: 60, total: Some(100) });
    p.advance(30);
    match p.finish() {
        Err(CloudError::Partial { got, expected }) => assert_eq!((got, expected), (90, 100)),
        other => panic!("unexpected {:?}", other),
    }
    p.advance(10);
    assert!(p.finish().is_ok());
    let mut q = DownloadProgress::start(0, Some(40), 60);
    assert_eq!(q.total, Some(100));
    q.advance(39);
    assert!(q.finish().is_err());
    q.advance(1);
    assert!(q.finish().is_ok());
    let r = DownloadProgress::start(0, None, 5);
    assert_eq!(r.total, None);
    assert!(r.finish().is_ok());
}

#[test]
fn resume_decisions() {
    assert_eq!(resume_offset(true, Some(10)), 10);
    assert_eq!(resume_offset(true, None), 0);
    assert_eq!(resume_offset(false, Some(10)), 0);
    assert!(part_is_complete(10, 10));
    assert!(!part_is_complete(9, 10));
    assert!(!part_is_complete(10, 0));
    assert!(!part_is_complete(0, 0));
}

#[test]
fn sanitized_names() {
    assert_eq!(sanitize("a b/c:d.e_f-g"), "a_b_c_d.e_f-g");
    assert_eq!(sanitize("é中1"), "é中1");
    let once = sanitize("x?y*z");
    assert_eq!(sanitize(&once), once);
}

#[test]
fn file_name_of_url() {
    assert_eq!(file_name_from_url("https://cdn/x/VID_1.insv?resourceKey=abc/def"), "VID_1.insv");
    assert_eq!(file_name_from_url("plain"), "plain");
    assert_eq!(file_name_from_url("https://cdn/dir/"), "");
}

#[test]
fn jwt_candidates() {
    let text = "junk eyJa.b.c more eyJonly.one\neyJx.y.z-_9 eyJ";
    assert_eq!(extract_jwts(text), vec!["eyJa.b.c".to_string(), "eyJx.y.z-_9".to_string()]);
    assert!(extract_jwts("").is_empty());
    assert_eq!(extract_jwts("éeyJ1.2.3é"), vec!["eyJ1.2.3".to_string()]);
}

#[test]
fn config_for_the_command_line() {
    let c = build_config(Region::Test, "00:11".to_string());
    assert_eq!(c.region, Region::Test);
    assert_eq!(c.platform, Platform::Windows);
    assert_eq!(c.equipment_code, "00:11");
}

#[test]
fn equipment_code_choice() {
    let mut app = AppConfig::default();
    match app.choose_equipment_code(Some("EC")) {
        EquipmentCodeStep::Use { code, save } => {
            assert_eq!(code, "EC");
            assert!(save);
        }
        EquipmentCodeStep::Detect => panic!("detect"),
    }
    match app.choose_equipment_code(None) {
        EquipmentCodeStep::Use { code, save } => {
            assert_eq!(code, "EC");
            assert!(!save);
        }
        EquipmentCodeStep::Detect => panic!("detect"),
    }
    match app.choose_equipment_code(Some("EC")) {
        EquipmentCodeStep::Use { save, .. } => assert!(!save),
        EquipmentCodeStep::Detect => panic!("detect"),
    }
    let mut fresh = AppConfig::default();
    assert!(matches!(fresh.choose_equipment_code(None), EquipmentCodeStep::Detect));
    assert_eq!(fresh.adopt_detected(None), (String::new(), false));
    assert!(fresh.equipment_code.is_none());
    assert_eq!(fresh.adopt_detected(Some("AA".to_string())), ("AA".to_string(), true));
    assert_eq!(fresh.equipment_code.as_deref(), Some("AA"));
}

#[test]
fn equipment_code_from_interfaces() {
    let entries = vec![
        ("lo".to_string(), "00:00:00:00:00:00\n".to_string()),
        ("eth1".to_string(), " bb:bb:bb:bb:bb:bb\n".to_string()),
        ("wlan0".to_string(), "00:00:00:00:00:00\n".to_string()),
        ("eth0".to_string(), "aa:aa:aa:aa:aa:aa".to_string()),
        ("tun0".to_string(), "\n".to_string()),
    ];
    assert_eq!(pick_equipment_code(entries).as_deref(), Some("AA:AA:AA:AA:AA:AA"));
    let only_loopback = vec![("lo".to_string(), "11:22:33:44:55:66".to_string())];
    assert_eq!(pick_equipment_code(only_loopback), None);
    assert_eq!(pick_equipment_code(Vec::new()), None);
}

#[test]
fn smallest_is_first_in_order() {
    let items = vec!["b".to_string(), "ab".to_string(), "a".to_string(), "ba".to_string()];
    assert_eq!(smallest(items).as_deref(), Some("a"));
    assert_eq!(smallest(Vec::new()), None);
}
