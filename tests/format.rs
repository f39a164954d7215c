use chat_relay::format::{escape_for_component, IncomingDiscordMessage, StdinMessage};

fn message(username: &str, content: &str) -> IncomingDiscordMessage {
    IncomingDiscordMessage { username: username.to_string(), content: content.to_string() }
}

/// Reads a quoted literal the way the console does, from just after the opening quote.
fn read_quoted(s: &str) -> (String, String) {
    let mut out = String::new();
    let mut chars = s.chars();
    while let Some(c) = chars.next() {
        match c {
            '\\' => out.push(chars.next().unwrap()),
            '"' => return (out, chars.collect()),
            _ => out.push(c),
        }
    }
    panic!("literal never closes")
}

#[test]
fn escaping_quotes_backslashes_and_quotes() {
    assert_eq!(escape_for_component(r#"a\b"c"#), r#"a\\b\"c"#);
    assert_eq!(escape_for_component(""), "");
    assert_eq!(escape_for_component("plain text"), "plain text");
}

#[test]
fn command_has_prefix_and_quoted_line() {
    assert_eq!(message("Steve", "hello").create_command("tellraw @a"), "tellraw @a \"<Steve> hello\"\n");
}

#[test]
fn command_literal_reads_back_to_name_and_body() {
    let name = r"back\slash";
    let body = r#"say "hi" \o/"#;
    let cmd = message(name, body).create_command("tellraw @a");
    let start = "tellraw @a \"".len();
    let (text, rest) = read_quoted(&cmd[start..]);
    assert_eq!(text, format!("<{}> {}", name, body));
    assert_eq!(rest, "\n");
}

#[test]
fn local_input_goes_through_untouched() {
    let line = "say \"raw\"\n".to_string();
    assert_eq!(StdinMessage::UserInput(line.clone()).as_string("tellraw @a"), line);
    assert_eq!(
        StdinMessage::DiscordMessage(message("a", "b")).as_string("say"),
        "say \"<a> b\"\n"
    );
}

#[test]
fn gateway_message_from_bot_is_marked() {
    let m = IncomingDiscordMessage::from_gateway(5, 5, None, 9, "helper", true, "hi").unwrap();
    assert_eq!(m.username, "[BOT] helper");
    assert_eq!(m.content, "hi");
    let m = IncomingDiscordMessage::from_gateway(5, 5, Some(3), 9, "alex", false, "yo").unwrap();
    assert_eq!(m.username, "alex");
}

#[test]
fn gateway_messages_outside_the_relay_are_dropped() {
    assert!(IncomingDiscordMessage::from_gateway(4, 5, None, 9, "a", false, "hi").is_none());
    assert!(IncomingDiscordMessage::from_gateway(5, 5, Some(9), 9, "a", false, "hi").is_none());
    assert!(IncomingDiscordMessage::from_gateway(5, 5, None, 9, "a", false, "").is_none());
}
