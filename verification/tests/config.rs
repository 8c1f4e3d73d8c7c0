use chat_system::config::{
    default_irc_port, default_signal_cli_path, ConfigError, ConsoleConfig, DiscordConfig,
    GoogleChatConfig, GoogleChatMode, IrcConfig, IrcListenerConfig, TeamsConfig, TeamsMode,
};
use chat_system::messenger::find_by_name;
use chat_system::MessengerConfig;

#[test]
fn config_names_and_protocols() {
    let cfg = MessengerConfig::Irc(IrcConfig {
        name: "bot".into(),
        server: "irc.libera.chat".into(),
        port: 6697,
        nick: "bot".into(),
        channels: vec!["#rust".into()],
        tls: true,
    });
    assert_eq!(cfg.protocol_name(), "irc");
    assert_eq!(cfg.name(), "bot");
    let cfg = MessengerConfig::Discord(DiscordConfig { name: "d-bot".into(), token: "tok123".into() });
    assert_eq!(cfg.protocol_name(), "discord");
    assert_eq!(cfg.name(), "d-bot");
    let cfg = MessengerConfig::Console(ConsoleConfig { name: "con".into() });
    assert_eq!(cfg.protocol_name(), "console");
    assert_eq!(cfg.name(), "con");
}

#[test]
fn defaults() {
    assert_eq!(default_irc_port(), 6667);
    assert_eq!(default_signal_cli_path(), "signal-cli");
}

#[test]
fn teams_mode_selection() {
    let full = TeamsConfig {
        name: "t".into(),
        webhook_url: Some("https://hook".into()),
        token: Some("tok".into()),
        team_id: Some("team".into()),
        channel_id: Some("chan".into()),
    };
    assert!(matches!(full.mode(), Ok(TeamsMode::Graph { .. })));
    let hook = TeamsConfig { token: None, ..full.clone() };
    match hook.mode() {
        Ok(TeamsMode::Webhook { webhook_url }) => assert_eq!(webhook_url, "https://hook"),
        other => panic!("unexpected {:?}", other),
    }
    let none = TeamsConfig { webhook_url: None, ..hook };
    let err = none.mode().unwrap_err();
    assert_eq!(err, ConfigError::TeamsIncomplete);
    assert_eq!(
        err.message(),
        "Teams config requires either webhook_url or token + team_id + channel_id"
    );
}

#[test]
fn google_chat_mode_selection() {
    let api = GoogleChatConfig {
        name: "g".into(),
        webhook_url: None,
        token: Some("tok".into()),
        space_id: Some("spaces/1".into()),
    };
    match api.mode() {
        Ok(GoogleChatMode::Api { token, space_id }) => {
            assert_eq!(token, "tok");
            assert_eq!(space_id, "spaces/1");
        }
        other => panic!("unexpected {:?}", other),
    }
    let missing = GoogleChatConfig { space_id: None, ..api };
    assert_eq!(missing.mode().unwrap_err(), ConfigError::GoogleChatIncomplete);
}

#[test]
fn irc_listener_config() {
    let l = IrcListenerConfig { address: "0.0.0.0:6667".into() };
    assert_eq!(l.protocol(), "irc");
    assert_eq!(l.address(), "0.0.0.0:6667");
}

#[test]
fn lookup_by_name_takes_the_first() {
    let names = vec!["alpha".to_string(), "beta".to_string(), "alpha".to_string()];
    assert_eq!(find_by_name(&names, "alpha"), Some(0));
    assert_eq!(find_by_name(&names, "beta"), Some(1));
    assert_eq!(find_by_name(&names, "gamma"), None);
}
