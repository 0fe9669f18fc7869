use rauthy_core::decision::{find_decision, Decision, Kind, StrikeFix, TeeTeeFix};
use rauthy_core::i18n::{I18nEmailChangeInfoNew, I18nEmailConfirmChange, Language};
use rauthy_core::util::escape;
use rauthy_core::volume::{VolumeCreated, VolumeRemoved, VolumeResources};

#[test]
fn escape_replaces_every_angle_bracket() {
    assert_eq!(escape("a<b<<c>"), "a&lt;b&lt;&lt;c>");
    assert_eq!(escape(""), "");
    assert_eq!(escape("plain"), "plain");
}

#[test]
fn find_decision_matches_kind_and_id() {
    let decisions = vec![
        Decision::Strike { id: "x".to_string(), fix: StrikeFix::S },
        Decision::TeeTee { id: "x".to_string(), fix: TeeTeeFix::Kbd },
        Decision::TeeTee { id: "x".to_string(), fix: TeeTeeFix::Var },
    ];
    match find_decision(&decisions, "x", Kind::TeeTee) {
        Some(Decision::TeeTee { fix, .. }) => assert_eq!(*fix, TeeTeeFix::Kbd),
        _ => panic!("expected the first tt decision"),
    }
    match find_decision(&decisions, "x", Kind::Strike) {
        Some(Decision::Strike { fix, .. }) => assert_eq!(*fix, StrikeFix::S),
        _ => panic!("expected the strike decision"),
    }
    assert!(find_decision(&decisions, "y", Kind::Strike).is_none());
    assert!(find_decision(&[], "x", Kind::TeeTee).is_none());
}

#[test]
fn merge_appends_in_order() {
    let mut new = VolumeResources {
        created: vec![VolumeCreated { name: "a".to_string(), ..Default::default() }],
        removed: vec![],
    };
    let older = VolumeResources {
        created: vec![VolumeCreated { name: "b".to_string(), ..Default::default() }],
        removed: vec![VolumeRemoved { name: "c".to_string(), force: Some(true) }],
    };
    older.merge(&mut new);
    let names: Vec<&str> = new.created.iter().map(|c| c.name.as_str()).collect();
    assert_eq!(names, vec!["a", "b"]);
    assert_eq!(new.removed.len(), 1);
    assert_eq!(new.removed[0].force, Some(true));
}

#[test]
fn i18n_texts_by_language() {
    assert_eq!(I18nEmailChangeInfoNew::build(&Language::En).subject, "E-Mail Change Request");
    assert_eq!(I18nEmailChangeInfoNew::build(&Language::De).expires, "Link gültig bis:");
    assert_eq!(I18nEmailConfirmChange::build(&Language::ZhHans).msg_from_admin, "此操作由管理员完成。");
    assert_eq!(I18nEmailConfirmChange::build(&Language::En).subject, "E-Mail Change confirmed for");
}
