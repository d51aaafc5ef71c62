use disrust::data::Msg;
use disrust::error::DecodeError;
use disrust::frame::{Frame, OperationCode, Outbound};
use disrust::json::{parse, Json};

#[test]
fn operation_codes_read_and_write_back() {
    assert_eq!(OperationCode::from_code(0), OperationCode::Dispatch);
    assert_eq!(OperationCode::from_code(1), OperationCode::HeartbeatRequest);
    assert_eq!(OperationCode::from_code(2), OperationCode::Identify);
    assert_eq!(OperationCode::from_code(10), OperationCode::Hello);
    assert_eq!(OperationCode::from_code(11), OperationCode::HeartbeatAck);
    assert_eq!(OperationCode::from_code(7), OperationCode::Unknown(7));
    assert_eq!(OperationCode::from_code(-1), OperationCode::Unknown(-1));
    for code in -5..20i64 {
        assert_eq!(OperationCode::from_code(code).code(), code);
    }
}

#[test]
fn hello_frame_decodes_with_its_payload() {
    let frame = Frame::decode(r#"{"op":10,"d":{"heartbeat_interval":41250},"s":null,"t":null}"#)
        .expect("a frame");
    assert_eq!(frame.operation, OperationCode::Hello);
    assert_eq!(frame.sequence, None);
    assert_eq!(frame.event_name, None);
    assert_eq!(
        frame.payload,
        Json::Object(vec![("heartbeat_interval".to_string(), Json::Number(Some(41250)))])
    );
}

#[test]
fn dispatch_frame_decodes_with_name_and_sequence() {
    let frame = Frame::decode(r#"{"op":0,"t":"TYPING_START","s":42,"d":{"x":1}}"#).expect("a frame");
    assert_eq!(frame.operation, OperationCode::Dispatch);
    assert_eq!(frame.sequence, Some(42));
    assert_eq!(frame.event_name, Some("TYPING_START".to_string()));
    assert_eq!(frame.payload, Json::Object(vec![("x".to_string(), Json::Number(Some(1)))]));
}

#[test]
fn frame_without_payload_has_a_null_payload() {
    let frame = Frame::decode(r#"{"op":11}"#).expect("a frame");
    assert_eq!(frame.operation, OperationCode::HeartbeatAck);
    assert_eq!(frame.payload, Json::Null);
}

#[test]
fn event_name_is_kept_only_for_a_dispatch() {
    let frame = Frame::decode(r#"{"op":1,"t":"READY","d":null}"#).expect("a frame");
    assert_eq!(frame.operation, OperationCode::HeartbeatRequest);
    assert_eq!(frame.event_name, None);
}

#[test]
fn unknown_operation_code_is_no_error() {
    let frame = Frame::decode(r#"{"op":9,"d":false}"#).expect("a frame");
    assert_eq!(frame.operation, OperationCode::Unknown(9));
    assert_eq!(frame.payload, Json::Bool(false));
    assert_eq!(frame.event(), Ok(None));
}

#[test]
fn text_that_is_not_json_is_malformed() {
    assert_eq!(Frame::decode(""), Err(DecodeError::Malformed));
    assert_eq!(Frame::decode("{\"op\":1"), Err(DecodeError::Malformed));
    assert_eq!(Frame::decode("not json"), Err(DecodeError::Malformed));
}

#[test]
fn frame_without_operation_code_is_an_error() {
    assert_eq!(Frame::decode(r#"{"d":{"heartbeat_interval":1}}"#), Err(DecodeError::MissingOperation));
    assert_eq!(Frame::decode(r#"{"op":"10"}"#), Err(DecodeError::MissingOperation));
    assert_eq!(Frame::decode(r#"{"op":null}"#), Err(DecodeError::MissingOperation));
    assert_eq!(Frame::decode(r#"{"op":1.5}"#), Err(DecodeError::MissingOperation));
    assert_eq!(Frame::decode(r#"[10]"#), Err(DecodeError::MissingOperation));
    assert_eq!(Frame::decode(r#"10"#), Err(DecodeError::MissingOperation));
}

#[test]
fn dispatch_without_event_name_is_an_error() {
    assert_eq!(Frame::decode(r#"{"op":0,"d":{}}"#), Err(DecodeError::MissingEventName));
    assert_eq!(Frame::decode(r#"{"op":0,"t":null,"d":{}}"#), Err(DecodeError::MissingEventName));
    assert_eq!(Frame::decode(r#"{"op":0,"t":5,"d":{}}"#), Err(DecodeError::MissingEventName));
}

#[test]
fn from_json_reads_a_document_built_by_hand() {
    let json = Json::Object(vec![
        ("op".to_string(), Json::Number(Some(0))),
        ("t".to_string(), Json::String("X".to_string())),
        ("d".to_string(), Json::Array(Vec::new())),
    ]);
    let frame = Frame::from_json(json).expect("a frame");
    assert_eq!(
        frame,
        Frame {
            operation: OperationCode::Dispatch,
            sequence: None,
            event_name: Some("X".to_string()),
            payload: Json::Array(Vec::new()),
        }
    );
}

#[test]
fn message_create_brings_its_message() {
    let frame = Frame::decode(
        r#"{"op":0,"t":"MESSAGE_CREATE","d":{"id":"10","channel_id":"2",
            "author":{"id":"5","username":"Bob","discriminator":"0002"},"content":"hi"}}"#,
    )
    .expect("a frame");
    let event = frame.event().expect("decodes").expect("an event");
    assert_eq!(event.operation, "MESSAGE_CREATE");
    assert_eq!(event.message.id, 10);
    assert_eq!(event.message.channel_id, 2);
    assert_eq!(event.message.user.id, 5);
    assert_eq!(event.message.user.name, "Bob");
    assert_eq!(event.message.content, "hi");
    assert!(event.guilds.is_empty());
}

#[test]
fn ready_brings_its_guilds() {
    let frame = Frame::decode(
        r#"{"op":0,"t":"READY","d":{"guilds":[{"id":"1","name":"G","channels":[]}]}}"#,
    )
    .expect("a frame");
    let event = frame.event().expect("decodes").expect("an event");
    assert_eq!(event.operation, "READY");
    assert_eq!(event.guilds.len(), 1);
    assert_eq!(event.message, Msg::new());
}

#[test]
fn unknown_event_name_brings_nothing() {
    for name in ["MESSAGE_REACTION_ADD", "TYPING_START", "GUILD_CREATE", "message_create", ""] {
        let text = format!(r#"{{"op":0,"t":"{}","d":{{"id":"nonsense"}}}}"#, name);
        let frame = Frame::decode(&text).expect("a frame");
        assert_eq!(frame.event(), Ok(None), "for {:?}", name);
    }
}

#[test]
fn known_event_with_a_bad_payload_is_an_error() {
    let frame = Frame::decode(r#"{"op":0,"t":"MESSAGE_CREATE","d":{"id":"x"}}"#).expect("a frame");
    assert_eq!(frame.event(), Err(DecodeError::InvalidId));
    let frame = Frame::decode(r#"{"op":0,"t":"READY","d":null}"#).expect("a frame");
    assert_eq!(frame.event(), Err(DecodeError::MissingField));
}

#[test]
fn heartbeat_text_is_exact() {
    assert_eq!(Outbound::Heartbeat.encode(), r#"{"op":1,"d":null}"#);
}

#[test]
fn identify_text_is_exact() {
    let frame = Outbound::Identify { token: "abc.DEF-123".to_string() };
    assert_eq!(
        frame.encode(),
        r#"{"op":2,"d":{"token":"abc.DEF-123","properties":{"$os":"linux","$browser":"chrome","$device":"pc"}}}"#
    );
}

#[test]
fn outbound_texts_read_back_as_the_frames_they_are() {
    let heartbeat = Frame::decode(&Outbound::Heartbeat.encode()).expect("a frame");
    assert_eq!(heartbeat.operation, OperationCode::HeartbeatRequest);
    assert_eq!(heartbeat.payload, Json::Null);
    let identify = Frame::decode(&Outbound::Identify { token: "secret".to_string() }.encode())
        .expect("a frame");
    assert_eq!(identify.operation, OperationCode::Identify);
    assert_eq!(identify.payload.get("token").and_then(|t| t.as_str()), Some("secret"));
    let properties = identify.payload.get("properties").expect("properties");
    assert_eq!(properties.get("$os").and_then(|t| t.as_str()), Some("linux"));
    assert_eq!(properties.get("$browser").and_then(|t| t.as_str()), Some("chrome"));
    assert_eq!(properties.get("$device").and_then(|t| t.as_str()), Some("pc"));
    assert!(parse(&Outbound::Identify { token: String::new() }.encode()).is_some());
}

#[test]
fn identify_keeps_a_token_with_quotes_and_backslashes_inside_its_string() {
    for token in ["a\"b", "back\\slash", "\\\"", "x\",\"op\":\"9", "\"}}},{\"op\":1", "line\nbreak\ttab\r\u{0}\u{1f}", "é ☃ 日本"] {
        let text = Outbound::Identify { token: token.to_string() }.encode();
        let frame = Frame::decode(&text).expect("a frame");
        assert_eq!(frame.operation, OperationCode::Identify, "for {:?}", token);
        assert_eq!(frame.payload.get("token").and_then(|t| t.as_str()), Some(token));
        let properties = frame.payload.get("properties").expect("properties");
        assert_eq!(properties.get("$os").and_then(|t| t.as_str()), Some("linux"));
        assert_eq!(properties.get("$browser").and_then(|t| t.as_str()), Some("chrome"));
        assert_eq!(properties.get("$device").and_then(|t| t.as_str()), Some("pc"));
        match &frame.payload {
            Json::Object(members) => assert_eq!(members.len(), 2, "for {:?}", token),
            other => panic!("payload is {:?}", other),
        }
    }
}

#[test]
fn identify_text_with_a_quote_is_exact() {
    let frame = Outbound::Identify { token: "a\"b\\c\n".to_string() };
    assert_eq!(
        frame.encode(),
        r#"{"op":2,"d":{"token":"a\"b\\c\u000a","properties":{"$os":"linux","$browser":"chrome","$device":"pc"}}}"#
    );
}
