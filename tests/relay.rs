use chat_relay::error::RelayError;
use chat_relay::format::{IncomingDiscordMessage, StdinMessage};
use chat_relay::relay::{Relay, RelayAction, RelayEvent, RelayState, Transport};

fn chat(name: &str, body: &str) -> RelayEvent {
    RelayEvent::Input(StdinMessage::DiscordMessage(IncomingDiscordMessage {
        username: name.to_string(),
        content: body.to_string(),
    }))
}

fn local(line: &str) -> RelayEvent {
    RelayEvent::Input(StdinMessage::UserInput(line.to_string()))
}

fn ready(transport: Transport) -> Relay {
    let mut relay = Relay::new(transport, "say".to_string());
    assert!(matches!(relay.step(RelayEvent::Connected), RelayAction::Idle));
    assert_eq!(relay.state(), RelayState::Ready);
    relay
}

fn written(action: RelayAction) -> Option<String> {
    match action {
        RelayAction::Write(s) => Some(s),
        _ => None,
    }
}

#[test]
fn interleaved_sources_are_written_in_arrival_order() {
    let mut relay = ready(Transport::Process);
    let events = vec![local("list\n"), chat("a", "one"), chat("b", "two"), local("stop\n")];
    let out: Vec<Option<String>> = events.into_iter().map(|e| written(relay.step(e))).collect();
    assert_eq!(
        out,
        vec![
            Some("list\n".to_string()),
            Some("say \"<a> one\"\n".to_string()),
            Some("say \"<b> two\"\n".to_string()),
            Some("stop\n".to_string()),
        ]
    );
}

#[test]
fn process_exit_closes_without_writing_queued_messages() {
    let mut relay = ready(Transport::Process);
    let stop = relay.step(RelayEvent::SinkFailed(RelayError::ProcessExited));
    assert!(matches!(stop, RelayAction::Stop(RelayError::ProcessExited)));
    assert_eq!(relay.state(), RelayState::Closed);
    assert!(written(relay.step(chat("a", "late"))).is_none());
    assert!(written(relay.step(local("late\n"))).is_none());
}

#[test]
fn shutdown_stops_and_second_signal_is_ignored() {
    let mut relay = ready(Transport::Process);
    assert!(matches!(relay.step(RelayEvent::Shutdown), RelayAction::Stop(RelayError::ShutdownRequested)));
    assert!(matches!(relay.step(RelayEvent::Shutdown), RelayAction::Idle));
    assert!(written(relay.step(chat("a", "after"))).is_none());
    assert_eq!(relay.state(), RelayState::Closed);
}

#[test]
fn producer_closing_is_fatal() {
    let mut relay = ready(Transport::Rcon);
    let action = relay.step(RelayEvent::ProducerClosed);
    assert!(matches!(action, RelayAction::Stop(RelayError::ProducerClosed)));
    assert!(RelayError::ProducerClosed.is_fatal());
    assert!(!RelayError::ShutdownRequested.is_fatal());
}

#[test]
fn console_sink_ignores_local_input() {
    let mut relay = ready(Transport::Rcon);
    assert!(written(relay.step(local("list\n"))).is_none());
    assert_eq!(written(relay.step(chat("a", "hi"))), Some("say \"<a> hi\"\n".to_string()));
    assert_eq!(relay.transport(), Transport::Rcon);
}

#[test]
fn failure_while_connecting_closes() {
    let mut relay = Relay::new(Transport::Rcon, "say".to_string());
    assert!(written(relay.step(chat("a", "early"))).is_none());
    let action = relay.step(RelayEvent::SinkFailed(RelayError::AuthenticationFailed));
    assert!(matches!(action, RelayAction::Stop(RelayError::AuthenticationFailed)));
    assert_eq!(relay.state(), RelayState::Closed);
}
