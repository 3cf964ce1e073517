use instapi360_cloud::config::Region;
use instapi360_cloud::{make_nonce, ClientConfig, CloudError, Signer};

fn cfg_with(app_key: &str, sign_key: &str) -> ClientConfig {
    let mut c = ClientConfig::windows(Region::Global);
    c.app_key = app_key.to_string();
    c.sign_key = sign_key.to_string();
    c
}

#[test]
fn unconfigured_signer_refuses() {
    let signer = Signer::new(&ClientConfig::windows(Region::Global));
    assert!(!signer.is_ready());
    assert!(signer.sign("abc", "123").is_err());
}

#[test]
fn hmac_is_deterministic() {
    let signer = Signer::new(&cfg_with("APPKEY", "secret"));
    let a = signer.sign("nonce1", "1700000000").unwrap();
    let b = signer.sign("nonce1", "1700000000").unwrap();
    assert_eq!(a.signature, b.signature);
    // Different nonce -> different signature.
    let c = signer.sign("nonce2", "1700000000").unwrap();
    assert_ne!(a.signature, c.signature);
}

#[test]
fn signature_matches_reference_hmac() {
    let signer = Signer::new(&cfg_with("APPKEY", "secret"));
    let s = signer.sign("nonce1", "1700000000").unwrap();
    assert_eq!(
        s.signature,
        "5214f7aede9ee44d5e28fa13058b4787d3a347df3a8c10bca107e2690a9cc19b"
    );
    assert_eq!(s.nonce, "nonce1");
    assert_eq!(s.timestamp, "1700000000");
    assert_eq!(s.signature.len(), 64);
}

#[test]
fn refusal_is_a_signing_error() {
    let signer = Signer::new(&cfg_with("APPKEY", ""));
    assert!(!signer.is_ready());
    match signer.sign("n", "t") {
        Err(CloudError::Signing(m)) => assert!(m.contains("not configured")),
        other => panic!("unexpected {:?}", other),
    }
    let signer = Signer::new(&cfg_with("", "secret"));
    assert!(!signer.is_ready());
}

#[test]
fn skeleton_config_cannot_sign() {
    let c = ClientConfig::windows(Region::Cn);
    assert!(!c.can_sign());
    assert!(cfg_with("k", "s").can_sign());
    assert_eq!(c.app_version, "6.0.2");
    assert_eq!(c.app_id, "studio_win");
    assert_eq!(c.user_agent, "insta360/studio");
    assert_eq!(c.language, "en");
    assert_eq!(c.region, Region::Cn);
}

#[test]
fn nonce_is_sixteen_hex_digits() {
    assert_eq!(make_nonce(0), "e220a8397b1dcdaf");
    assert_eq!(make_nonce(42), "bdd732262feb6e95");
    let n = make_nonce(u64::MAX);
    assert_eq!(n.len(), 16);
    assert!(n.chars().all(|c| c.is_ascii_hexdigit() && !c.is_ascii_uppercase()));
}
