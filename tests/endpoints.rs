use chat_relay::auth::{expected_auth_header, Authorized};
use chat_relay::config::{default_bind_address, default_tellraw_prefix};
use chat_relay::legacy::{join_notice, leave_notice, system_sender, LegacyChatResponse};

#[test]
fn auth_header_is_basic_base64_of_key() {
    assert_eq!(expected_auth_header("key"), "Basic a2V5");
    assert_eq!(expected_auth_header(""), "Basic ");
}

#[test]
fn requests_from_the_server_with_the_key_pass() {
    let expected = expected_auth_header("key");
    assert!(Authorized::from_headers(Some("Minecraft server 1.21"), Some("Basic a2V5"), &expected).is_some());
    assert!(Authorized::from_headers(None, None, &expected).is_some());
}

#[test]
fn foreign_agent_or_wrong_key_is_rejected() {
    let expected = expected_auth_header("key");
    assert!(Authorized::from_headers(Some("curl/8.0"), Some("Basic a2V5"), &expected).is_none());
    assert!(Authorized::from_headers(Some("Minecraft server"), Some("Basic b2V5"), &expected).is_none());
}

#[test]
fn notices_and_defaults() {
    assert_eq!(join_notice("Steve"), "Steve joined the game");
    assert_eq!(leave_notice("Alex"), "Alex left the game");
    assert_eq!(system_sender(), "System");
    assert!(LegacyChatResponse::passing().pass_through);
    assert_eq!(default_bind_address(), "127.0.0.1:8080");
    assert_eq!(default_tellraw_prefix(), "tellraw @a");
}
