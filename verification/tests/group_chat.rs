use chat_system::group_chat::{
    format_group_message, group_context_key, ActivationMode, GroupChatConfig, IsolationMode,
};


#[test]
fn test_default_config() {
    let config = GroupChatConfig::default();
    assert!(!config.enabled);
    assert_eq!(config.activation, ActivationMode::Mention);
    assert_eq!(config.isolation, IsolationMode::PerGroup);
    assert_eq!(config.prefix, "!claw");
    assert!(config.include_sender_names);
}

#[test]
fn test_should_respond_mention() {
    let config = GroupChatConfig {
        enabled: true,
        activation: ActivationMode::Mention,
        ..Default::default()
    };

    assert!(config.should_respond("Hey @rustyclaw help me", "RustyClaw"));
    assert!(config.should_respond("rustyclaw what do you think?", "RustyClaw"));
    assert!(!config.should_respond("Just chatting with friends", "RustyClaw"));
}

#[test]
fn test_should_respond_prefix() {
    let config = GroupChatConfig {
        enabled: true,
        activation: ActivationMode::Prefix,
        prefix: "!claw".to_string(),
        ..Default::default()
    };

    assert!(config.should_respond("!claw help me", "RustyClaw"));
    assert!(!config.should_respond("Hey rustyclaw", "RustyClaw"));
}

#[test]
fn test_should_respond_always() {
    let config = GroupChatConfig {
        enabled: true,
        activation: ActivationMode::Always,
        ..Default::default()
    };

    assert!(config.should_respond("anything at all", "RustyClaw"));
}

#[test]
fn test_should_respond_never() {
    let config = GroupChatConfig {
        enabled: true,
        activation: ActivationMode::Never,
        ..Default::default()
    };

    assert!(!config.should_respond("@rustyclaw please", "RustyClaw"));
}

#[test]
fn test_should_respond_disabled() {
    let config = GroupChatConfig {
        enabled: false,
        activation: ActivationMode::Always,
        ..Default::default()
    };

    assert!(!config.should_respond("anything", "RustyClaw"));
}

#[test]
fn test_group_allowed() {
    let config = GroupChatConfig {
        allowed_groups: vec!["group1".to_string(), "group2".to_string()],
        ..Default::default()
    };

    assert!(config.is_group_allowed("group1"));
    assert!(!config.is_group_allowed("group3"));
}

#[test]
fn test_group_blocked() {
    let config = GroupChatConfig {
        blocked_groups: vec!["spam".to_string()],
        ..Default::default()
    };

    assert!(!config.is_group_allowed("spam"));
    assert!(config.is_group_allowed("general"));
}

#[test]
fn test_session_key_per_group() {
    let config = GroupChatConfig {
        isolation: IsolationMode::PerGroup,
        ..Default::default()
    };
    assert_eq!(config.session_key("g123", Some("u456")), "group:g123");
}

#[test]
fn test_session_key_per_user() {
    let config = GroupChatConfig {
        isolation: IsolationMode::PerUser,
        ..Default::default()
    };
    assert_eq!(
        config.session_key("g123", Some("u456")),
        "group:g123:user:u456"
    );
}

#[test]
fn test_session_key_shared() {
    let config = GroupChatConfig {
        isolation: IsolationMode::Shared,
        ..Default::default()
    };
    assert_eq!(config.session_key("g123", Some("u456")), "shared");
}

#[test]
fn test_strip_prefix() {
    let config = GroupChatConfig {
        activation: ActivationMode::Prefix,
        prefix: "!claw".to_string(),
        ..Default::default()
    };
    assert_eq!(config.strip_prefix("!claw help me"), "help me");
    assert_eq!(config.strip_prefix("no prefix"), "no prefix");
}

#[test]
fn test_format_group_message() {
    assert_eq!(
        format_group_message("Alice", "Hello!", true),
        "[Alice]: Hello!"
    );
    assert_eq!(format_group_message("Alice", "Hello!", false), "Hello!");
}

#[test]
fn blocked_group_is_refused_even_when_allowed() {
    let config = GroupChatConfig {
        allowed_groups: vec!["g".to_string()],
        blocked_groups: vec!["g".to_string()],
        ..Default::default()
    };
    assert!(!config.is_group_allowed("g"));
}

#[test]
fn mention_is_case_insensitive_and_matches_at_tags() {
    let config = GroupChatConfig {
        enabled: true,
        activation: ActivationMode::Mention,
        ..Default::default()
    };
    assert!(config.should_respond("HEY RUSTYCLAW", "rustyclaw"));
    assert!(config.should_respond("ping @Bot", "bot"));
    assert!(!config.should_respond("nothing here", "bot"));
}

#[test]
fn session_key_per_user_without_user_falls_back_to_group() {
    let config = GroupChatConfig { isolation: IsolationMode::PerUser, ..Default::default() };
    assert_eq!(config.session_key("g1", None), "group:g1");
}

#[test]
fn strip_prefix_only_in_prefix_mode() {
    let config = GroupChatConfig { activation: ActivationMode::Mention, ..Default::default() };
    assert_eq!(config.strip_prefix("!claw help"), "!claw help");
    let config = GroupChatConfig { activation: ActivationMode::Prefix, ..Default::default() };
    assert_eq!(config.strip_prefix("!claw    spaced"), "spaced");
    assert_eq!(config.strip_prefix("!claw"), "");
}

#[test]
fn group_context_key_joins_with_colon() {
    assert_eq!(group_context_key("slack", "C123"), "slack:C123");
}

#[test]
fn default_modes() {
    assert_eq!(ActivationMode::default(), ActivationMode::Mention);
    assert_eq!(IsolationMode::default(), IsolationMode::PerGroup);
    assert_eq!(GroupChatConfig::default().max_context_messages, 50);
}

#[test]
fn isolated_sessions_stay_apart() {
    let per_group = GroupChatConfig { isolation: IsolationMode::PerGroup, ..Default::default() };
    assert_ne!(per_group.session_key("g1", Some("u")), per_group.session_key("g2", Some("u")));
    let per_user = GroupChatConfig { isolation: IsolationMode::PerUser, ..Default::default() };
    assert_ne!(per_user.session_key("g1", Some("alice")), per_user.session_key("g1", Some("bob")));
}
