use rauthy_core::error::ErrorResponseType;
use rauthy_core::magic_link::{
    IdxMagicLinkPasswordUser, MagicLink, RequestContext, CSRF_TOKEN_LENGTH, LINK_ID_LENGTH,
};
use rauthy_core::store::StateBackend;
use rauthy_core::usage::MagicLinkUsage;

fn no_request() -> RequestContext {
    RequestContext { cookie: None, csrf_token: None }
}

fn link(store: &mut StateBackend, id: &str, user: &str, usage: MagicLinkUsage) -> MagicLink {
    MagicLink::create_at(store, id.to_string(), "csrf".to_string(), 1000, user.to_string(), 30, usage).unwrap()
}

#[test]
fn create_then_validate_twice() {
    let mut store = StateBackend::standalone();
    let ml = MagicLink::create(&mut store, "u1".to_string(), 30, MagicLinkUsage::PasswordReset(None)).unwrap();
    assert_eq!(ml.id.len(), LINK_ID_LENGTH);
    assert_eq!(ml.csrf_token.len(), CSRF_TOKEN_LENGTH);
    assert_eq!(ml.usage, "password_reset");
    assert!(ml.validate("u1", &no_request(), false, true).is_ok());
    let mut used = ml.clone();
    used.used = true;
    used.save(&mut store).unwrap();
    let stored = MagicLink::find(&store, &ml.id).unwrap();
    assert!(stored.used);
    let err = stored.validate("u1", &no_request(), false, true).unwrap_err();
    assert_eq!(err.error, ErrorResponseType::BadRequest);
    assert_eq!(err.message, "The requested passwort reset link was already used");
}

#[test]
fn redeem_succeeds_once() {
    let mut store = StateBackend::standalone();
    let ml = link(&mut store, "id1", "u1", MagicLinkUsage::PasswordReset(None));
    let first = MagicLink::redeem(&mut store, &ml.id, "u1", &no_request(), false, true, 1001).unwrap();
    assert!(first.used);
    let err = MagicLink::redeem(&mut store, &ml.id, "u1", &no_request(), false, true, 1001).unwrap_err();
    assert_eq!(err.message, "The requested passwort reset link was already used");
    let missing = MagicLink::redeem(&mut store, "nope", "u1", &no_request(), false, true, 1001).unwrap_err();
    assert_eq!(missing.error, ErrorResponseType::NotFound);
}

#[test]
fn create_sets_deadline_and_refuses_taken_id() {
    let mut store = StateBackend::standalone();
    let ml = link(&mut store, "id1", "u1", MagicLinkUsage::NewUser(None));
    assert_eq!(ml.exp, 1000 + 30 * 60);
    assert!(!ml.used);
    assert!(ml.cookie.is_none());
    let again = MagicLink::create_at(
        &mut store, "id1".to_string(), "c".to_string(), 1000, "u2".to_string(), 30, MagicLinkUsage::NewUser(None),
    );
    assert_eq!(again.unwrap_err().error, ErrorResponseType::Internal);
    assert_eq!(store.magic_links.len(), 1);
}

#[test]
fn validation_checks_in_order() {
    let mut store = StateBackend::standalone();
    let mut ml = link(&mut store, "id1", "u1", MagicLinkUsage::PasswordReset(None));
    ml.cookie = Some("bound".to_string());
    let good = RequestContext { cookie: Some("rauthy-pwd-reset=bound".to_string()), csrf_token: Some("csrf".to_string()) };
    assert!(ml.validate_at("u1", &good, true, true, 1001).is_ok());

    let other_cookie = RequestContext { cookie: Some("other".to_string()), csrf_token: None };
    let err = ml.validate_at("u2", &other_cookie, true, true, 5000).unwrap_err();
    assert_eq!(err.error, ErrorResponseType::Forbidden);
    // with binding switched off, the next check decides
    let err = ml.validate_at("u1", &other_cookie, true, false, 1001).unwrap_err();
    assert_eq!(err.error, ErrorResponseType::Unauthorized);
    assert_eq!(err.message, "CSRF Token is missing");

    let wrong_csrf = RequestContext { cookie: Some("bound".to_string()), csrf_token: Some("x".to_string()) };
    let err = ml.validate_at("u1", &wrong_csrf, true, true, 1001).unwrap_err();
    assert_eq!(err.message, "Invalid CSRF Token");
    assert!(ml.validate_at("u1", &wrong_csrf, false, true, 1001).is_ok());

    let err = ml.validate_at("u2", &good, true, true, 1001).unwrap_err();
    assert_eq!(err.error, ErrorResponseType::Forbidden);
    assert_eq!(err.message, "The user id is invalid");

    let err = ml.validate_at("u1", &good, true, true, 1000 + 30 * 60 + 1).unwrap_err();
    assert_eq!(err.message, "This link has expired already");
    assert!(ml.validate_at("u1", &good, true, true, 1000 + 30 * 60).is_ok());
}

#[test]
fn invalidate_all_email_change_spares_other_links() {
    let mut store = StateBackend::standalone();
    link(&mut store, "e1", "u1", MagicLinkUsage::EmailChange("a@x".to_string()));
    link(&mut store, "r1", "u1", MagicLinkUsage::PasswordReset(None));
    link(&mut store, "e2", "u1", MagicLinkUsage::EmailChange("b@x".to_string()));
    link(&mut store, "e3", "u2", MagicLinkUsage::EmailChange("c@x".to_string()));
    let mut used = link(&mut store, "e4", "u1", MagicLinkUsage::EmailChange("d@x".to_string()));
    used.used = true;
    used.save(&mut store).unwrap();

    MagicLink::invalidate_all_email_change(&mut store, "u1").unwrap();
    let ids: Vec<&str> = store.magic_links.iter().map(|l| l.id.as_str()).collect();
    assert_eq!(ids, vec!["r1", "e3", "e4"]);
    assert!(MagicLink::find(&store, "e1").is_err());
    assert!(MagicLink::find(&store, "r1").is_ok());
}

#[test]
fn find_and_find_by_user() {
    let mut store = StateBackend::standalone();
    link(&mut store, "a", "u1", MagicLinkUsage::NewUser(None));
    link(&mut store, "b", "u2", MagicLinkUsage::NewUser(None));
    link(&mut store, "c", "u2", MagicLinkUsage::NewUser(None));
    assert_eq!(MagicLink::find(&store, "b").unwrap().user_id, "u2");
    assert_eq!(MagicLink::find(&store, "z").unwrap_err().error, ErrorResponseType::NotFound);
    assert_eq!(MagicLink::find_by_user(&store, "u2").unwrap().id, "b");
    assert_eq!(MagicLink::find_by_user(&store, "u3").unwrap_err().error, ErrorResponseType::NotFound);
}

#[test]
fn save_changes_only_mutable_fields() {
    let mut store = StateBackend::standalone();
    let ml = link(&mut store, "a", "u1", MagicLinkUsage::NewUser(None));
    let mut changed = ml.clone();
    changed.cookie = Some("c".to_string());
    changed.exp = 42;
    changed.user_id = "someone-else".to_string();
    changed.save(&mut store).unwrap();
    let stored = MagicLink::find(&store, "a").unwrap();
    assert_eq!(stored.cookie, Some("c".to_string()));
    assert_eq!(stored.exp, 42);
    assert_eq!(stored.user_id, "u1");
}

#[test]
fn invalidate_moves_deadline_into_the_past() {
    let mut store = StateBackend::standalone();
    let mut ml = link(&mut store, "a", "u1", MagicLinkUsage::NewUser(None));
    ml.invalidate_at(&mut store, 5000).unwrap();
    assert_eq!(ml.exp, 4990);
    assert_eq!(MagicLink::find(&store, "a").unwrap().exp, 4990);
    let err = ml.validate_at("u1", &no_request(), false, true, 5000).unwrap_err();
    assert_eq!(err.message, "This link has expired already");
    let mut live = link(&mut store, "b", "u1", MagicLinkUsage::NewUser(None));
    live.invalidate(&mut store).unwrap();
    assert!(live.validate("u1", &no_request(), false, true).is_err());
}

#[test]
fn index_entry_from_link() {
    let mut store = StateBackend::standalone();
    let ml = link(&mut store, "a", "u1", MagicLinkUsage::NewUser(None));
    let idx = IdxMagicLinkPasswordUser::from_magic_link(&ml);
    assert_eq!(idx.user_id, "u1");
    assert_eq!(idx.id, "a");
}

#[test]
fn invalidate_all_email_change_reads_the_kind() {
    let mut store = StateBackend::standalone();
    let mut bare = link(&mut store, "e1", "u1", MagicLinkUsage::NewUser(None));
    bare.usage = "email_change".to_string();
    store.magic_links[0] = bare;
    link(&mut store, "n1", "u1", MagicLinkUsage::NewUser(Some("email_change$x".to_string())));
    MagicLink::invalidate_all_email_change(&mut store, "u1").unwrap();
    let ids: Vec<&str> = store.magic_links.iter().map(|l| l.id.as_str()).collect();
    assert_eq!(ids, vec!["n1"]);
}

#[test]
fn create_on_empty_store_succeeds_with_deadline() {
    let mut store = StateBackend::standalone();
    let ml = MagicLink::create(&mut store, "u1".to_string(), 30, MagicLinkUsage::PasswordReset(None)).unwrap();
    assert_eq!(ml.user_id, "u1");
    assert!(ml.cookie.is_none());
    let diff = ml.exp - 1800;
    assert!(diff > 1_600_000_000);
}
