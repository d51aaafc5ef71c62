use disrust::error::DecodeError;
use disrust::frame::{Frame, OperationCode, Outbound};
use disrust::gateway::{Arrival, Fault, HandshakeError, Phase, Session};
use disrust::json::Json;
use disrust::sink::EventSink;

const HELLO: &str = r#"{"op":10,"d":{"heartbeat_interval":40000}}"#;
const READY: &str = r#"{"op":0,"t":"READY","s":1,"d":{"guilds":[{"id":"1","name":"G","channels":[{"id":"2","name":"general","type":0}]}]}}"#;
const MESSAGE: &str = r#"{"op":0,"t":"MESSAGE_CREATE","s":2,"d":{"id":"10","channel_id":"2","author":{"id":"5","username":"Bob","discriminator":"0002"},"content":"hi"}}"#;
const HEARTBEAT_REQUEST: &str = r#"{"op":1,"d":null}"#;
const HEARTBEAT_ACK: &str = r#"{"op":11}"#;

fn connected(interval: i64, now: u64) -> (Session, EventSink) {
    let mut session = Session::new("token");
    let mut sink = EventSink::new();
    let hello = format!(r#"{{"op":10,"d":{{"heartbeat_interval":{}}}}}"#, interval);
    let reaction = session.step(Some(&hello), now, &mut sink);
    assert_eq!(reaction.fault, None);
    let reaction = session.step(Some(READY), now, &mut sink);
    assert_eq!(reaction.fault, None);
    assert_eq!(session.phase(), Phase::Connected);
    assert!(sink.poll().is_some());
    (session, sink)
}

#[test]
fn new_session_awaits_the_hello() {
    let session = Session::new("token");
    assert_eq!(session.phase(), Phase::AwaitingHello);
    assert_eq!(session.heartbeat_interval(), 0);
    assert_eq!(session.last_heartbeat(), 0);
}

#[test]
fn hello_sets_the_interval_and_is_answered_with_the_credential() {
    for interval in [1i64, 40000, 41250, 45000, i64::MAX] {
        let mut session = Session::new("my-token");
        let mut sink = EventSink::new();
        let hello = format!(r#"{{"op":10,"d":{{"heartbeat_interval":{}}}}}"#, interval);
        let reaction = session.step(Some(&hello), 7, &mut sink);
        assert_eq!(session.heartbeat_interval(), interval);
        assert_eq!(session.phase(), Phase::AwaitingReady);
        assert_eq!(reaction.sends, vec![Outbound::Identify { token: "my-token".to_string() }]);
        assert_eq!(reaction.fault, None);
        assert_eq!(sink.len(), 0);
    }
}

#[test]
fn end_to_end_hello_ready_message() {
    let mut session = Session::new("token");
    let mut sink = EventSink::new();

    let reaction = session.step(Some(HELLO), 0, &mut sink);
    assert_eq!(reaction.fault, None);
    assert_eq!(session.heartbeat_interval(), 40000);
    assert_eq!(reaction.sends.len(), 1);
    assert_eq!(sink.len(), 0);

    let reaction = session.step(Some(READY), 100, &mut sink);
    assert_eq!(reaction.fault, None);
    assert!(reaction.sends.is_empty());
    assert_eq!(session.phase(), Phase::Connected);
    assert_eq!(session.last_heartbeat(), 100);
    assert_eq!(sink.len(), 1);
    let ready = sink.poll().expect("the ready event");
    assert_eq!(ready.operation, "READY");
    assert_eq!(ready.guilds.len(), 1);
    assert_eq!(ready.guilds[0].channels.len(), 1);
    assert_eq!(ready.guilds[0].channels[0].name, "general");

    let reaction = session.step(Some(MESSAGE), 200, &mut sink);
    assert_eq!(reaction.fault, None);
    assert!(reaction.sends.is_empty());
    assert_eq!(sink.len(), 1);
    let created = sink.poll().expect("the message event");
    assert_eq!(created.operation, "MESSAGE_CREATE");
    assert_eq!(created.message.content, "hi");
    assert_eq!(created.message.user.name, "Bob");
    assert!(sink.poll().is_none());
}

#[test]
fn handshake_fails_on_a_first_frame_that_is_no_hello() {
    let mut session = Session::new("token");
    let mut sink = EventSink::new();
    let reaction = session.step(Some(HEARTBEAT_ACK), 0, &mut sink);
    assert_eq!(reaction.fault, Some(Fault::Fatal(HandshakeError::ExpectedHello)));
    assert!(reaction.sends.is_empty());
    assert_eq!(session.phase(), Phase::Failed);
}

#[test]
fn handshake_fails_on_a_hello_without_interval() {
    let mut session = Session::new("token");
    let mut sink = EventSink::new();
    let reaction = session.step(Some(r#"{"op":10,"d":{"heartbeat_interval":"40000"}}"#), 0, &mut sink);
    assert_eq!(
        reaction.fault,
        Some(Fault::Fatal(HandshakeError::Payload(DecodeError::MissingField)))
    );
    assert_eq!(session.phase(), Phase::Failed);
}

#[test]
fn handshake_fails_on_what_is_no_frame_and_on_a_failed_read() {
    let mut sink = EventSink::new();
    let mut session = Session::new("token");
    let reaction = session.step(Some("garbage"), 0, &mut sink);
    assert_eq!(
        reaction.fault,
        Some(Fault::Fatal(HandshakeError::Frame(DecodeError::Malformed)))
    );
    let mut session = Session::new("token");
    let reaction = session.step(None, 0, &mut sink);
    assert_eq!(reaction.fault, Some(Fault::Fatal(HandshakeError::Transport)));
    assert_eq!(session.phase(), Phase::Failed);
}

#[test]
fn handshake_fails_on_a_second_frame_that_is_not_ready() {
    for (second, why) in [
        (Some(MESSAGE), HandshakeError::ExpectedReady),
        (Some(r#"{"op":9,"d":false}"#), HandshakeError::ExpectedReady),
        (Some(r#"{"op":0,"t":"READY","d":{}}"#), HandshakeError::Payload(DecodeError::MissingField)),
        (Some(r#"{"op":0,"d":{}}"#), HandshakeError::Frame(DecodeError::MissingEventName)),
        (None, HandshakeError::Transport),
    ] {
        let mut session = Session::new("token");
        let mut sink = EventSink::new();
        session.step(Some(HELLO), 0, &mut sink);
        let reaction = session.step(second, 1, &mut sink);
        assert_eq!(reaction.fault, Some(Fault::Fatal(why)));
        assert_eq!(session.phase(), Phase::Failed);
        assert_eq!(sink.len(), 0);
    }
}

#[test]
fn failed_session_does_nothing() {
    let mut session = Session::new("token");
    let mut sink = EventSink::new();
    session.step(None, 0, &mut sink);
    for message in [Some(HELLO), Some(READY), Some(MESSAGE), Some(HEARTBEAT_REQUEST), None] {
        let reaction = session.step(message, 1_000_000, &mut sink);
        assert_eq!(reaction.fault, None);
        assert!(reaction.sends.is_empty());
        assert_eq!(session.phase(), Phase::Failed);
        assert_eq!(sink.len(), 0);
    }
}

#[test]
fn heartbeat_is_sent_when_the_interval_has_elapsed_and_not_before() {
    let (mut session, mut sink) = connected(40000, 1000);
    assert_eq!(session.last_heartbeat(), 1000);
    for now in [1000u64, 1001, 20000, 40999] {
        assert!(!session.is_due(now));
        let reaction = session.step(Some(HEARTBEAT_ACK), now, &mut sink);
        assert!(reaction.sends.is_empty(), "at {}", now);
        assert_eq!(session.last_heartbeat(), 1000);
    }
    assert!(session.is_due(41000));
    let reaction = session.step(Some(HEARTBEAT_ACK), 41000, &mut sink);
    assert_eq!(reaction.sends, vec![Outbound::Heartbeat]);
    assert_eq!(session.last_heartbeat(), 41000);
    let reaction = session.step(Some(HEARTBEAT_ACK), 80999, &mut sink);
    assert!(reaction.sends.is_empty());
    let reaction = session.step(Some(MESSAGE), 90000, &mut sink);
    assert_eq!(reaction.sends, vec![Outbound::Heartbeat]);
    assert_eq!(session.last_heartbeat(), 90000);
    assert_eq!(sink.len(), 1);
}

#[test]
fn heartbeat_timer_runs_whatever_the_read_brought() {
    let (mut session, mut sink) = connected(500, 0);
    let reaction = session.step(None, 500, &mut sink);
    assert_eq!(reaction.fault, Some(Fault::Disconnected));
    assert_eq!(reaction.sends, vec![Outbound::Heartbeat]);
    let reaction = session.step(Some("garbage"), 1000, &mut sink);
    assert_eq!(reaction.fault, Some(Fault::Skipped(DecodeError::Malformed)));
    assert_eq!(reaction.sends, vec![Outbound::Heartbeat]);
    assert_eq!(session.last_heartbeat(), 1000);
}

#[test]
fn heartbeat_request_is_answered_at_once() {
    let (mut session, mut sink) = connected(40000, 1000);
    let reaction = session.step(Some(HEARTBEAT_REQUEST), 1001, &mut sink);
    assert_eq!(reaction.sends, vec![Outbound::Heartbeat]);
    assert_eq!(reaction.fault, None);
    assert_eq!(session.last_heartbeat(), 1001);
    assert_eq!(sink.len(), 0);
    let reaction = session.step(Some(HEARTBEAT_REQUEST), 1001, &mut sink);
    assert_eq!(reaction.sends, vec![Outbound::Heartbeat]);
    let reaction = session.step(Some(HEARTBEAT_ACK), 41000, &mut sink);
    assert!(reaction.sends.is_empty());
    let reaction = session.step(Some(HEARTBEAT_ACK), 41001, &mut sink);
    assert_eq!(reaction.sends, vec![Outbound::Heartbeat]);
}

#[test]
fn interval_that_is_not_positive_beats_in_every_step() {
    let (mut session, mut sink) = connected(0, 50);
    let reaction = session.step(Some(HEARTBEAT_ACK), 50, &mut sink);
    assert_eq!(reaction.sends, vec![Outbound::Heartbeat]);
    let reaction = session.step(Some(HEARTBEAT_REQUEST), 50, &mut sink);
    assert_eq!(reaction.sends, vec![Outbound::Heartbeat, Outbound::Heartbeat]);
    let (mut session, mut sink) = connected(-5, 50);
    let reaction = session.step(None, 0, &mut sink);
    assert_eq!(reaction.sends, vec![Outbound::Heartbeat]);
}

#[test]
fn clock_that_went_back_counts_as_no_time_elapsed() {
    let (mut session, mut sink) = connected(10, 1000);
    let reaction = session.step(Some(HEARTBEAT_ACK), 5, &mut sink);
    assert!(reaction.sends.is_empty());
    assert_eq!(session.last_heartbeat(), 1000);
}

#[test]
fn unknown_event_produces_nothing_and_is_no_fault() {
    let (mut session, mut sink) = connected(40000, 0);
    for name in ["TYPING_START", "GUILD_CREATE", "CHANNEL_CREATE", "SOMETHING_NEW"] {
        let text = format!(r#"{{"op":0,"t":"{}","d":{{}}}}"#, name);
        let reaction = session.step(Some(&text), 1, &mut sink);
        assert_eq!(reaction.fault, None);
        assert!(reaction.sends.is_empty());
        assert_eq!(sink.len(), 0);
        assert_eq!(session.phase(), Phase::Connected);
    }
}

#[test]
fn malformed_frame_is_skipped_and_the_next_one_is_processed() {
    let (mut session, mut sink) = connected(40000, 0);
    let reaction = session.step(Some(r#"{"d":{},"t":"MESSAGE_CREATE"}"#), 1, &mut sink);
    assert_eq!(reaction.fault, Some(Fault::Skipped(DecodeError::MissingOperation)));
    assert_eq!(sink.len(), 0);
    assert_eq!(session.phase(), Phase::Connected);
    let reaction = session.step(Some(MESSAGE), 2, &mut sink);
    assert_eq!(reaction.fault, None);
    assert_eq!(sink.poll().expect("an event").message.content, "hi");
}

#[test]
fn message_with_a_malformed_id_is_skipped() {
    let (mut session, mut sink) = connected(40000, 0);
    let bad = r#"{"op":0,"t":"MESSAGE_CREATE","d":{"id":"10","channel_id":"two","author":{"id":"5","username":"Bob","discriminator":"0002"},"content":"hi"}}"#;
    let reaction = session.step(Some(bad), 1, &mut sink);
    assert_eq!(reaction.fault, Some(Fault::Skipped(DecodeError::InvalidId)));
    assert_eq!(sink.len(), 0);
    assert_eq!(session.phase(), Phase::Connected);
}

#[test]
fn failed_read_disconnects_and_the_next_message_reconnects() {
    let (mut session, mut sink) = connected(40000, 0);
    let reaction = session.step(None, 1, &mut sink);
    assert_eq!(reaction.fault, Some(Fault::Disconnected));
    assert_eq!(session.phase(), Phase::Disconnected);
    let reaction = session.step(None, 2, &mut sink);
    assert_eq!(reaction.fault, Some(Fault::Disconnected));
    assert_eq!(session.phase(), Phase::Disconnected);
    let reaction = session.step(Some(MESSAGE), 3, &mut sink);
    assert_eq!(reaction.fault, None);
    assert_eq!(session.phase(), Phase::Connected);
    assert_eq!(sink.len(), 1);
    assert_eq!(session.heartbeat_interval(), 40000);
}

#[test]
fn events_are_published_in_the_order_of_their_frames() {
    let (mut session, mut sink) = connected(1_000_000, 0);
    for id in 0..50u64 {
        let text = format!(
            r#"{{"op":0,"t":"MESSAGE_CREATE","d":{{"id":"{}","channel_id":"2","author":{{"id":"5","username":"Bob","discriminator":"0002"}},"content":"m{}"}}}}"#,
            id, id
        );
        session.step(Some(&text), id, &mut sink);
    }
    assert_eq!(sink.len(), 50);
    for id in 0..50u64 {
        let event = sink.poll().expect("an event");
        assert_eq!(event.message.id, id);
        assert_eq!(event.message.content, format!("m{}", id));
    }
}

#[test]
fn ready_in_the_loop_is_published_too() {
    let (mut session, mut sink) = connected(40000, 0);
    let reaction = session.step(Some(READY), 1, &mut sink);
    assert_eq!(reaction.fault, None);
    assert_eq!(sink.poll().expect("an event").operation, "READY");
}

#[test]
fn on_arrival_takes_a_frame_built_by_hand() {
    let (mut session, mut sink) = connected(40000, 0);
    let frame = Frame {
        operation: OperationCode::HeartbeatRequest,
        sequence: None,
        event_name: None,
        payload: Json::Null,
    };
    let reaction = session.on_arrival(Arrival::Frame(frame), 9, &mut sink);
    assert_eq!(reaction.sends, vec![Outbound::Heartbeat]);
    let reaction = session.on_arrival(Arrival::Undecodable(DecodeError::Malformed), 10, &mut sink);
    assert_eq!(reaction.fault, Some(Fault::Skipped(DecodeError::Malformed)));
    let reaction = session.on_arrival(Arrival::ReadFailed, 11, &mut sink);
    assert_eq!(reaction.fault, Some(Fault::Disconnected));
}

#[test]
fn endpoint_names_version_and_encoding() {
    assert_eq!(disrust::gateway::GATEWAY_URL, "wss://gateway.discord.gg/?v=9&encoding=json");
}
