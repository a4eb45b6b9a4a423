use lxp::lxpcommands::LxpCommands;
use lxp::lxpconfig::{Error, LxpConfig};
use lxp::lxptypes::ApiMode;

fn commands(mode: ApiMode) -> LxpCommands {
    let config = LxpConfig::load("/tmp/lxp.toml".to_string(), None, Vec::new()).expect("empty");
    LxpCommands::new(config, mode)
}

#[test]
fn profile_commands_maintain_the_store() {
    let mut cmds = commands(ApiMode::Test);
    assert!(!cmds.has_account());
    cmds.profile_new("home", "user", "https://example.com/", "key")
        .expect("new profile");
    cmds.profile_new("work", "other", "https://example.com/", "key2")
        .expect("new profile");
    assert_eq!(cmds.profile_show(), vec!["  home".to_string(), "* work".to_string()]);
    cmds.profile_switch("home").expect("switch");
    assert_eq!(cmds.profile_show(), vec!["* home".to_string(), "  work".to_string()]);
    assert_eq!(cmds.profile_switch("nope"), Err(Error::MissingProfile));
    cmds.profile_delete("home").expect("delete");
    assert_eq!(cmds.profile_show(), vec!["  work".to_string()]);
    assert_eq!(cmds.profile_delete("home"), Err(Error::MissingProfile));
    cmds.profile_delete_all();
    assert!(cmds.profile_show().is_empty());
    assert_eq!(cmds.profile_new(" ", "u", "url", "k"), Err(Error::EmptyName));
    assert!(cmds.config().active().is_none());
}

#[test]
fn client_uses_selected_profile_and_mode() {
    let mut cmds = commands(ApiMode::Live);
    cmds.profile_new("home", "dummy-user", "https://legacy.example/", "dummy-secret")
        .expect("new profile");
    assert!(cmds.has_account());
    let api = cmds.api();
    assert_eq!(api.mode(), ApiMode::Live);
    let body = api.body::<()>(None);
    assert_eq!(body.auth.username, "dummy-user");
    assert_eq!(body.auth.apikey, "dummy-secret");
    assert_eq!(api.balance().url, "https://api.letterxpress.de/v3/balance");
    // The client is created once and reused even after the selection changes.
    cmds.profile_new("work", "someone-else", "", "k").expect("second profile");
    assert_eq!(cmds.api().body::<()>(None).auth.username, "dummy-user");
}

#[test]
fn environment_credentials_are_preferred_and_never_mixed() {
    let mut cmds = commands(ApiMode::Test);
    assert_eq!(
        cmds.client(None, None).err(),
        Some(lxp::lxpconfig::CredentialError::Missing)
    );
    cmds.profile_new("home", "profile-user", "", "profile-key")
        .expect("profile");
    let env = cmds
        .client(Some("env-user".to_string()), Some("env-key".to_string()))
        .expect("environment account");
    assert_eq!(env.body::<()>(None).auth.username, "env-user");
    assert_eq!(
        cmds.client(Some("env-user".to_string()), None).err(),
        Some(lxp::lxpconfig::CredentialError::Partial)
    );
    assert_eq!(
        cmds.client(None, Some("env-key".to_string())).err(),
        Some(lxp::lxpconfig::CredentialError::Partial)
    );
    let stored = cmds.client(None, None).expect("profile account");
    assert_eq!(stored.body::<()>(None).auth.apikey, "profile-key");
    assert_eq!(stored.mode(), ApiMode::Test);
}

#[test]
fn invoice_file_joins_date_and_profile() {
    let mut cmds = commands(ApiMode::Test);
    cmds.profile_new("work", "user", "", "key").expect("new profile");
    let (name, pdf) = cmds
        .invoice_pdf_file("2024-05-01", b"JVBERi0xLjc=")
        .expect("valid document");
    assert_eq!(name, "2024-05-01_work-invoice.pdf");
    assert_eq!(pdf, b"%PDF-1.7");
    assert_eq!(cmds.invoice_pdf_file("2024-05-01", b"JVBERi0xLjc"), None);
}
