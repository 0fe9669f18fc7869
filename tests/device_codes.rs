use rauthy_core::device::{DeviceAuthCode, DevicePoll, DEVICE_KEY_LENGTH, USER_CODE_LENGTH};
use rauthy_core::store::StateBackend;

fn issue(store: &mut StateBackend, now: i64) -> DeviceAuthCode {
    DeviceAuthCode::new_at(
        store,
        "ABCDEFGHijklmnopqrstuvwxyz0123456789".to_string(),
        now,
        600,
        Some("openid".to_string()),
        "client".to_string(),
        None,
    )
}

#[test]
fn user_code_is_strict_prefix_of_device_code() {
    let mut store = StateBackend::standalone();
    let code = DeviceAuthCode::new(&mut store, 600, None, "client".to_string(), None).unwrap();
    assert_eq!(code.device_code.len(), DEVICE_KEY_LENGTH);
    assert!(code.device_code.chars().all(|c| c.is_ascii_alphanumeric()));
    assert_eq!(code.user_code().len(), USER_CODE_LENGTH);
    assert!(code.device_code.starts_with(code.user_code()));
    assert!(code.user_code().len() < code.device_code.len());
    assert!(store.cache_holds(code.user_code()));
}

#[test]
fn find_by_device_code_equals_find_by_prefix() {
    let mut store = StateBackend::standalone();
    let code = issue(&mut store, 1000);
    let a = DeviceAuthCode::find_by_device_code(&mut store, &code.device_code, 1100).unwrap().unwrap();
    let b = DeviceAuthCode::find(&mut store, "ABCDEFGH", 1100).unwrap().unwrap();
    assert_eq!(a.device_code, b.device_code);
    assert_eq!(a.exp, b.exp);
    assert_eq!(a.client_id, b.client_id);
    assert!(DeviceAuthCode::find_by_device_code(&mut store, "ABC", 1100).unwrap().is_none());
    assert!(DeviceAuthCode::find(&mut store, "ZZZZZZZZ", 1100).unwrap().is_none());
}

#[test]
fn expired_code_is_not_found_and_removed() {
    let mut store = StateBackend::standalone();
    let mut code = issue(&mut store, 1000);
    code.verify("u1".to_string());
    // saving refreshes the cache lifetime, but not the deadline
    code.save(&mut store, 600, 1500).unwrap();
    assert!(store.cache_holds("ABCDEFGH"));
    assert!(DeviceAuthCode::find(&mut store, "ABCDEFGH", 1601).unwrap().is_none());
    assert!(!store.cache_holds("ABCDEFGH"));
}

#[test]
fn cache_entry_past_its_lifetime_is_evicted_on_read() {
    let mut store = StateBackend::standalone();
    let code = issue(&mut store, 1000);
    assert!(store.cache_holds(code.user_code()));
    assert!(store.cache_get("ABCDEFGH", 1600).is_none());
    assert!(!store.cache_holds("ABCDEFGH"));
}

#[test]
fn verification_keeps_the_deadline() {
    let mut store = StateBackend::standalone();
    let code = issue(&mut store, 1000);
    assert_eq!(code.exp, 1600);
    let mut found = DeviceAuthCode::find(&mut store, code.user_code(), 1001).unwrap().unwrap();
    assert!(found.verified_by.is_none());
    found.verify("u1".to_string());
    found.save(&mut store, 600, 1002).unwrap();
    let again = DeviceAuthCode::find(&mut store, code.user_code(), 1003).unwrap().unwrap();
    assert_eq!(again.verified_by, Some("u1".to_string()));
    assert_eq!(again.exp, 1600);
}

#[test]
fn delete_removes_the_code() {
    let mut store = StateBackend::standalone();
    let code = issue(&mut store, 1000);
    code.delete(&mut store).unwrap();
    assert!(!store.cache_holds("ABCDEFGH"));
    assert!(DeviceAuthCode::find(&mut store, "ABCDEFGH", 1001).unwrap().is_none());
}

#[test]
fn polling_state_machine() {
    let mut store = StateBackend::standalone();
    let mut code = issue(&mut store, 1000);
    assert_eq!(code.poll(1002, 5), DevicePoll::SlowDown);
    assert_eq!(code.warnings, 1);
    assert_eq!(code.last_poll, 1002);
    assert_eq!(code.poll(1010, 5), DevicePoll::Pending);
    assert_eq!(code.warnings, 1);
    code.verify("u1".to_string());
    assert_eq!(code.poll(1020, 5), DevicePoll::Ready);
    code.warnings = u8::MAX;
    assert_eq!(code.poll(1021, 5), DevicePoll::SlowDown);
    assert_eq!(code.warnings, u8::MAX);
}

#[test]
fn verification_uris() {
    let mut store = StateBackend::standalone();
    let code = issue(&mut store, 1000);
    assert_eq!(code.verification_uri("https://iam.example"), "https://iam.example/auth/v1/device");
    assert_eq!(
        code.verification_uri_complete("https://iam.example"),
        "https://iam.example/auth/v1/device?code=ABCDEFGH"
    );
}
