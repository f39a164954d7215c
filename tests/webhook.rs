use chat_relay::webhook::{avatar_url, escape_colons, ChatEscaper};

#[test]
fn markup_is_escaped_and_colons_kept_when_links_embed() {
    let escaper = ChatEscaper::new().unwrap();
    let post = escaper.webhook_post(true, "Steve", None, "*bold* _it_ http://x | ~ # [a](b)");
    assert_eq!(post.content, r"\*bold\* \_it\_ http://x \| \~ \# \[a\]\(b\)");
    assert!(post.avatar_url.is_none());
}

#[test]
fn colons_are_escaped_when_links_may_not_embed() {
    let escaper = ChatEscaper::new().unwrap();
    let post = escaper.webhook_post(false, "Steve", None, "see https://x > y");
    assert_eq!(post.content, r"see https\://x \> y");
    assert_eq!(escape_colons("a:b::"), r"a\:b\:\:");
}

#[test]
fn platform_name_is_masked_in_any_case() {
    let escaper = ChatEscaper::new().unwrap();
    assert_eq!(escaper.webhook_post(true, "DiscordFan", None, "x").username, "D¡scordFan");
    assert_eq!(escaper.webhook_post(true, "my DISCORD", None, "x").username, "my D¡SCORD");
    assert_eq!(escaper.webhook_post(true, "Steve", None, "x").username, "Steve");
}

#[test]
fn avatar_comes_from_the_simple_player_id() {
    let id: u128 = 0x0123_4567_89ab_cdef_0011_2233_4455_6677;
    assert_eq!(avatar_url(id), "https://minotar.net/helm/0123456789abcdef0011223344556677");
    let escaper = ChatEscaper::new().unwrap();
    let post = escaper.webhook_post(true, "Steve", Some(id), "x");
    assert_eq!(post.avatar_url.as_deref(), Some("https://minotar.net/helm/0123456789abcdef0011223344556677"));
}
