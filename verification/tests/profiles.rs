use lxp::lxpconfig::{Error, LxpConfig, Profile};

fn profile(user: &str, key: &str) -> Profile {
    Profile {
        user_name: user.to_string(),
        api_key: key.to_string(),
    }
}

fn empty_store() -> LxpConfig {
    LxpConfig::load("/tmp/lxp/lxp.toml".to_string(), None, Vec::new()).expect("empty store")
}

#[test]
fn save_selects_and_delete_keeps_unrelated_selection() {
    let mut config = empty_store();
    assert!(config.active().is_none());
    config
        .save("first".to_string(), profile("dummy", "test-secret"))
        .expect("save first");
    assert_eq!(config.active().expect("first active").user_name, "dummy");
    config
        .save("second".to_string(), profile("other", "test-secret"))
        .expect("save second");
    assert_eq!(config.active().expect("second active").user_name, "other");
    config.delete("first").expect("delete inactive");
    assert_eq!(config.active().expect("still second").user_name, "other");
    config.delete("second").expect("delete active");
    assert!(config.active().is_none());
    assert_eq!(config.delete("second"), Err(Error::MissingProfile));
}

#[test]
fn blank_names_are_refused() {
    let mut config = empty_store();
    assert_eq!(
        config.save("".to_string(), profile("u", "k")),
        Err(Error::EmptyName)
    );
    assert_eq!(
        config.save(" \t\u{3000}".to_string(), profile("u", "k")),
        Err(Error::EmptyName)
    );
    assert!(config.list().is_empty());
    config
        .save(" padded ".to_string(), profile("u", "k"))
        .expect("non-blank name");
    assert_eq!(config.list(), vec!["*  padded ".to_string()]);
}

#[test]
fn select_requires_existing_profile() {
    let mut config = empty_store();
    config.save("home".to_string(), profile("a", "1")).expect("save");
    config.save("work".to_string(), profile("b", "2")).expect("save");
    assert_eq!(config.select("missing".to_string()), Err(Error::MissingProfile));
    assert_eq!(config.active().expect("unchanged").user_name, "b");
    config.select("home".to_string()).expect("select home");
    assert_eq!(config.active().expect("home").user_name, "a");
}

#[test]
fn listing_is_sorted_and_marks_selection() {
    let mut config = empty_store();
    config.save("zeta".to_string(), profile("z", "1")).expect("save");
    config.save("alpha".to_string(), profile("a", "2")).expect("save");
    config.save("Mid".to_string(), profile("m", "3")).expect("save");
    config.select("zeta".to_string()).expect("select");
    assert_eq!(
        config.list(),
        vec!["  Mid".to_string(), "  alpha".to_string(), "* zeta".to_string()]
    );
    let names: Vec<&str> = config.profiles().iter().map(|(n, _)| n.as_str()).collect();
    assert_eq!(names, vec!["Mid", "alpha", "zeta"]);
    assert_eq!(config.profile_active().map(|s| s.as_str()), Some("zeta"));
}

#[test]
fn saving_an_existing_name_replaces_it() {
    let mut config = empty_store();
    config.save("home".to_string(), profile("a", "1")).expect("save");
    config.save("work".to_string(), profile("b", "2")).expect("save");
    config.save("home".to_string(), profile("c", "3")).expect("replace");
    assert_eq!(config.profiles().len(), 2);
    let active = config.active().expect("home selected");
    assert_eq!(active.user_name, "c");
    assert_eq!(active.api_key, "3");
}

#[test]
fn load_rejects_dangling_selection() {
    let result = LxpConfig::load(
        "/tmp/lxp.toml".to_string(),
        Some("missing".to_string()),
        Vec::new(),
    );
    assert!(matches!(result, Err(Error::MissingProfile)));
    let loaded = LxpConfig::load(
        "/tmp/lxp.toml".to_string(),
        Some("b".to_string()),
        vec![
            ("b".to_string(), profile("user-b", "kb")),
            ("a".to_string(), profile("user-a", "ka")),
            ("b".to_string(), profile("user-b2", "kb2")),
        ],
    )
    .expect("valid store");
    assert_eq!(loaded.path(), "/tmp/lxp.toml");
    assert_eq!(loaded.active().expect("b").user_name, "user-b2");
    assert_eq!(loaded.list(), vec!["  a".to_string(), "* b".to_string()]);
}

#[test]
fn clear_removes_everything() {
    let mut config = empty_store();
    config.save("home".to_string(), profile("a", "1")).expect("save");
    config.clear();
    assert!(config.active().is_none());
    assert!(config.list().is_empty());
    assert!(config.profile_active().is_none());
}

#[test]
fn stored_store_loads_again() {
    let mut config = empty_store();
    config.save("work".to_string(), profile("w", "1")).expect("save");
    config.save("home".to_string(), profile("h", "2")).expect("save");
    config.select("work".to_string()).expect("select");
    let reloaded = LxpConfig::load(
        config.path().clone(),
        config.profile_active().cloned(),
        config.profiles().clone(),
    )
    .expect("stored store loads");
    assert_eq!(reloaded.list(), config.list());
    assert_eq!(reloaded.active().expect("work").user_name, "w");
    assert_eq!(reloaded.profiles().len(), 2);
}
