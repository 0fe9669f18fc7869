use rauthy_core::device_entity::DeviceEntity;
use rauthy_core::error::ErrorResponseType;
use rauthy_core::store::StateBackend;

fn device(id: &str, user: Option<&str>, access_exp: i64, refresh_exp: Option<i64>) -> DeviceEntity {
    DeviceEntity {
        id: id.to_string(),
        client_id: "client".to_string(),
        user_id: user.map(|u| u.to_string()),
        created: 0,
        access_exp,
        refresh_exp,
        peer_ip: "10.0.0.1".to_string(),
        name: "phone".to_string(),
    }
}

#[test]
fn insert_find_and_refuse_duplicate() {
    let mut store = StateBackend::standalone();
    device("d1", Some("u1"), 100, None).insert(&mut store).unwrap();
    assert_eq!(DeviceEntity::find(&store, "d1").unwrap().user_id, Some("u1".to_string()));
    let err = device("d1", None, 0, None).insert(&mut store).unwrap_err();
    assert_eq!(err.error, ErrorResponseType::Internal);
    assert_eq!(DeviceEntity::find(&store, "d2").unwrap_err().error, ErrorResponseType::NotFound);
}

#[test]
fn find_for_user_keeps_order() {
    let mut store = StateBackend::standalone();
    device("a", Some("u1"), 0, None).insert(&mut store).unwrap();
    device("b", Some("u2"), 0, None).insert(&mut store).unwrap();
    device("c", Some("u1"), 0, None).insert(&mut store).unwrap();
    device("d", None, 0, None).insert(&mut store).unwrap();
    let ids: Vec<String> = DeviceEntity::find_for_user(&store, "u1").unwrap().into_iter().map(|d| d.id).collect();
    assert_eq!(ids, vec!["a".to_string(), "c".to_string()]);
}

#[test]
fn delete_expired_needs_both_tokens_gone_for_an_hour() {
    let mut store = StateBackend::standalone();
    device("old", None, 1000, None).insert(&mut store).unwrap();
    device("refreshable", None, 1000, Some(9000)).insert(&mut store).unwrap();
    device("recent", None, 5000, None).insert(&mut store).unwrap();
    device("both_old", None, 1000, Some(2000)).insert(&mut store).unwrap();
    DeviceEntity::delete_expired_at(&mut store, 7000).unwrap();
    let ids: Vec<&str> = store.devices.iter().map(|d| d.id.as_str()).collect();
    assert_eq!(ids, vec!["refreshable", "recent"]);
}

#[test]
fn invalidate_revoke_and_rename() {
    let mut store = StateBackend::standalone();
    device("a", Some("u1"), 0, Some(10)).insert(&mut store).unwrap();
    device("b", Some("u1"), 0, Some(10)).insert(&mut store).unwrap();
    DeviceEntity::revoke_refresh_tokens(&mut store, "a").unwrap();
    assert_eq!(DeviceEntity::find(&store, "a").unwrap().refresh_exp, None);
    assert_eq!(DeviceEntity::find(&store, "b").unwrap().refresh_exp, Some(10));
    DeviceEntity::update_name(&mut store, "b", "u2", "stolen").unwrap();
    assert_eq!(DeviceEntity::find(&store, "b").unwrap().name, "phone");
    DeviceEntity::update_name(&mut store, "b", "u1", "laptop").unwrap();
    assert_eq!(DeviceEntity::find(&store, "b").unwrap().name, "laptop");
    DeviceEntity::invalidate(&mut store, "a").unwrap();
    assert!(DeviceEntity::find(&store, "a").is_err());
    assert_eq!(store.devices.len(), 1);
}
