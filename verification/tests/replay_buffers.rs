use websocket_nvim::decimal_text;
use websocket_nvim::replay::{MessageReplayBuffer, OutboundMessageReplayBuffer};
use websocket_nvim::standalone_client::WebsocketClient;

#[test]
fn outbound_buffer_keeps_messages_in_order() {
    let mut buffer = OutboundMessageReplayBuffer::new();
    assert!(buffer.messages().is_empty());
    buffer.add("first".to_string());
    buffer.add("second".to_string());
    buffer.add("first".to_string());
    assert_eq!(buffer.messages(), vec!["first", "second", "first"]);
}

#[test]
fn replay_lines_prefix_every_message() {
    let mut buffer = MessageReplayBuffer::new();
    buffer.add("hello".to_string());
    buffer.add(String::new());
    assert_eq!(buffer.replay_lines(), vec!["From Rust: hello", "From Rust: "]);
    assert_eq!(buffer.messages(), vec!["hello", ""]);
}

#[test]
fn standalone_client_connects_and_disconnects() {
    let mut client = WebsocketClient::new();
    assert!(!client.is_active());
    client.connect();
    assert!(client.is_active());
    client.send_data("ping".to_string());
    assert!(client.is_active());
    client.disconnect();
    assert!(!client.is_active());
    client.send_data("pong".to_string());
    assert!(!client.is_active());
    assert_eq!(client.check_replay_messages(), vec!["ping", "pong"]);
    assert_eq!(client.replay_messages(), vec!["From Rust: ping", "From Rust: pong"]);
}

#[test]
fn decimal_text_writes_numbers() {
    assert_eq!(decimal_text(0), "0");
    assert_eq!(decimal_text(7), "7");
    assert_eq!(decimal_text(10), "10");
    assert_eq!(decimal_text(8080), "8080");
    assert_eq!(decimal_text(u32::MAX), "4294967295");
}
