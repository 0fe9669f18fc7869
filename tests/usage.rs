use rauthy_core::error::ErrorResponseType;
use rauthy_core::usage::MagicLinkUsage;

#[test]
fn test_magic_link_usage_conversions() {
    let ml = MagicLinkUsage::NewUser(None);
    let s = ml.to_string();
    let ml_from = MagicLinkUsage::try_from(&s).unwrap();
    assert_eq!(ml, ml_from);

    let ml = MagicLinkUsage::NewUser(Some("custom.uri.com".to_string()));
    let s = ml.to_string();
    let ml_from = MagicLinkUsage::try_from(&s).unwrap();
    assert_eq!(ml, ml_from);

    let ml = MagicLinkUsage::PasswordReset(None);
    let s = ml.to_string();
    let ml_from = MagicLinkUsage::try_from(&s).unwrap();
    assert_eq!(ml, ml_from);

    let ml = MagicLinkUsage::PasswordReset(Some("custom.uri.com".to_string()));
    let s = ml.to_string();
    let ml_from = MagicLinkUsage::try_from(&s).unwrap();
    assert_eq!(ml, ml_from);

    let ml = MagicLinkUsage::EmailChange("admin@localhost.de".to_string());
    let s = ml.to_string();
    let ml_from = MagicLinkUsage::try_from(&s).unwrap();
    assert_eq!(ml, ml_from);
}

#[test]
fn usage_text_forms() {
    assert_eq!(MagicLinkUsage::PasswordReset(None).to_string(), "password_reset");
    assert_eq!(
        MagicLinkUsage::NewUser(Some("https://x/y".to_string())).to_string(),
        "new_user$https://x/y"
    );
    assert_eq!(
        MagicLinkUsage::EmailChange("a@b.c".to_string()).to_string(),
        "email_change$a@b.c"
    );
}

#[test]
fn usage_parse_splits_at_first_delimiter() {
    assert_eq!(
        MagicLinkUsage::parse("email_change$a$b").unwrap(),
        MagicLinkUsage::EmailChange("a$b".to_string())
    );
    assert_eq!(
        MagicLinkUsage::parse("new_user$").unwrap(),
        MagicLinkUsage::NewUser(None)
    );
    assert_eq!(
        MagicLinkUsage::parse("email_change").unwrap(),
        MagicLinkUsage::EmailChange(String::new())
    );
}

#[test]
fn usage_parse_rejects_unknown_kind() {
    let err = MagicLinkUsage::parse("garbled$x").unwrap_err();
    assert_eq!(err.error, ErrorResponseType::BadRequest);
    assert!(MagicLinkUsage::parse("").is_err());
    assert!(MagicLinkUsage::parse("New_User").is_err());
}
