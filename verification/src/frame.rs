//! The frame codec: one frame of the gateway protocol, read from the text
//! of a message or written as such a text.

use crate::data::{
    guild_list_of, lemma_msg_ids, msg_of, placeholder_msg, GatewayResponse,
    GatewayResponseView, Guild, Msg,
};
use crate::error::DecodeError;
use crate::json::{parse, parsed, Json, JsonView};
use crate::payload::{id_field, integer_field, read_integer, read_text, text_field};
use crate::text::{
    escape, escaped, is_control, lemma_escaped_plain, lemma_escaped_reads_back, same_text,
    unescaped,
};
use vstd::prelude::*;
use vstd::string::*;

verus! {

/// What a frame is for.
#[derive(Debug, Clone, Copy, PartialEq, Eq, Structural)]
pub enum OperationCode {
    /// A named event with a payload.
    Dispatch,
    /// The server asks for a heartbeat at once.
    HeartbeatRequest,
    /// The client presents its credential.
    Identify,
    /// The server opens the session and names the heartbeat interval.
    Hello,
    /// The server has received a heartbeat.
    HeartbeatAck,
    /// A code that this client does not act on.
    Unknown(i64),
}

/// The operation that a code on the wire stands for.
pub open spec fn operation_of(code: i64) -> OperationCode {
    if code == 0 {
        OperationCode::Dispatch
    } else if code == 1 {
        OperationCode::HeartbeatRequest
    } else if code == 2 {
        OperationCode::Identify
    } else if code == 10 {
        OperationCode::Hello
    } else if code == 11 {
        OperationCode::HeartbeatAck
    } else {
        OperationCode::Unknown(code)
    }
}

impl OperationCode {
    /// The code that goes on the wire.
    pub open spec fn wire_code(self) -> i64 {
        match self {
            OperationCode::Dispatch => 0,
            OperationCode::HeartbeatRequest => 1,
            OperationCode::Identify => 2,
            OperationCode::Hello => 10,
            OperationCode::HeartbeatAck => 11,
            OperationCode::Unknown(code) => code,
        }
    }

    /// The operation that `code` stands for.
    pub fn from_code(code: i64) -> (operation: OperationCode)
        ensures
            operation == operation_of(code),
    {
        if code == 0 {
            OperationCode::Dispatch
        } else if code == 1 {
            OperationCode::HeartbeatRequest
        } else if code == 2 {
            OperationCode::Identify
        } else if code == 10 {
            OperationCode::Hello
        } else if code == 11 {
            OperationCode::HeartbeatAck
        } else {
            OperationCode::Unknown(code)
        }
    }

    /// The code that goes on the wire.
    pub fn code(&self) -> (code: i64)
        ensures
            code == self.wire_code(),
    {
        match self {
            OperationCode::Dispatch => 0,
            OperationCode::HeartbeatRequest => 1,
            OperationCode::Identify => 2,
            OperationCode::Hello => 10,
            OperationCode::HeartbeatAck => 11,
            OperationCode::Unknown(code) => *code,
        }
    }
}

/// Every code reads as an operation that writes back as the same code.
pub proof fn lemma_code_round_trip(code: i64)
    ensures
        operation_of(code).wire_code() == code,
{
}

/// One inbound frame.
#[derive(Debug, PartialEq, Eq)]
pub struct Frame {
    pub operation: OperationCode,
    pub sequence: Option<i64>,
    pub event_name: Option<String>,
    pub payload: Json,
}

/// A [`Frame`], as mathematics.
pub struct FrameView {
    pub operation: OperationCode,
    pub sequence: Option<i64>,
    pub event_name: Option<Seq<char>>,
    pub payload: JsonView,
}

impl View for Frame {
    type V = FrameView;

    open spec fn view(&self) -> FrameView {
        FrameView {
            operation: self.operation,
            sequence: self.sequence,
            event_name: match self.event_name {
                Some(name) => Some(name@),
                None => None,
            },
            payload: self.payload@,
        }
    }
}

impl FrameView {
    /// A frame names an event exactly when it is a dispatch.
    pub open spec fn well_formed(self) -> bool {
        self.event_name is Some <==> self.operation == OperationCode::Dispatch
    }
}

/// The frame that a document holds. The operation code under `op` has to be
/// an integer; a dispatch has to name its event under `t`. The sequence
/// number under `s` and the payload under `d` are taken as they come, an
/// absent payload as null.
pub open spec fn frame_of(json: JsonView) -> Result<FrameView, DecodeError> {
    match integer_field(json, "op"@) {
        Err(_) => Err(DecodeError::MissingOperation),
        Ok(code) => {
            let sequence = match json.member("s"@) {
                Some(value) => value.integer(),
                None => None,
            };
            let payload = match json.member("d"@) {
                Some(value) => value,
                None => JsonView::Null,
            };
            if operation_of(code) == OperationCode::Dispatch {
                match text_field(json, "t"@) {
                    Err(_) => Err(DecodeError::MissingEventName),
                    Ok(name) => Ok(
                        FrameView {
                            operation: OperationCode::Dispatch,
                            sequence,
                            event_name: Some(name),
                            payload,
                        },
                    ),
                }
            } else {
                Ok(FrameView { operation: operation_of(code), sequence, event_name: None, payload })
            }
        },
    }
}

/// The frame that a text holds: the text has to be a JSON document, and the
/// document a frame.
pub open spec fn frame_of_text(text: Seq<char>) -> Result<FrameView, DecodeError> {
    match parsed(text) {
        None => Err(DecodeError::Malformed),
        Some(json) => frame_of(json),
    }
}

/// The event that a frame brings to the consumer: the guilds of `READY`,
/// the message of `MESSAGE_CREATE`, nothing for any other name and for a
/// frame that is no dispatch.
pub open spec fn event_of(frame: FrameView) -> Result<Option<GatewayResponseView>, DecodeError> {
    if frame.operation != OperationCode::Dispatch {
        Ok(None)
    } else if frame.event_name == Some("MESSAGE_CREATE"@) {
        match msg_of(frame.payload) {
            Err(e) => Err(e),
            Ok(message) => Ok(
                Some(
                    GatewayResponseView {
                        operation: "MESSAGE_CREATE"@,
                        message,
                        guilds: Seq::empty(),
                    },
                ),
            ),
        }
    } else if frame.event_name == Some("READY"@) {
        match guild_list_of(frame.payload) {
            Err(e) => Err(e),
            Ok(guilds) => Ok(
                Some(
                    GatewayResponseView { operation: "READY"@, message: placeholder_msg(), guilds },
                ),
            ),
        }
    } else {
        Ok(None)
    }
}

impl Frame {
    /// Reads a frame from a document.
    pub fn from_json(json: Json) -> (r: Result<Frame, DecodeError>)
        ensures
            match r {
                Ok(frame) => frame_of(json@) == Ok::<FrameView, DecodeError>(frame@),
                Err(e) => frame_of(json@) == Err::<FrameView, DecodeError>(e),
            },
            r matches Ok(frame) ==> frame@.well_formed(),
    {
        let operation = match read_integer(&json, "op") {
            Ok(code) => OperationCode::from_code(code),
            Err(_) => { return Err(DecodeError::MissingOperation); },
        };
        let sequence = match json.get("s") {
            Some(value) => value.as_i64(),
            None => None,
        };
        let event_name = match operation {
            OperationCode::Dispatch => match read_text(&json, "t") {
                Ok(name) => Some(name.to_owned()),
                Err(_) => { return Err(DecodeError::MissingEventName); },
            },
            _ => None,
        };
        let payload = match json.take("d") {
            Some(value) => value,
            None => Json::Null,
        };
        Ok(Frame { operation, sequence, event_name, payload })
    }

    /// Reads a frame from the text of a message.
    pub fn decode(text: &str) -> (r: Result<Frame, DecodeError>)
        ensures
            match r {
                Ok(frame) => frame_of_text(text@) == Ok::<FrameView, DecodeError>(frame@),
                Err(e) => frame_of_text(text@) == Err::<FrameView, DecodeError>(e),
            },
            r matches Ok(frame) ==> frame@.well_formed(),
    {
        match parse(text) {
            Some(json) => Frame::from_json(json),
            None => Err(DecodeError::Malformed),
        }
    }

    /// Decodes the event that the frame brings, if it brings one.
    pub fn event(&self) -> (r: Result<Option<GatewayResponse>, DecodeError>)
        ensures
            match r {
                Ok(Some(event)) => event_of(self@) == Ok::<
                    Option<GatewayResponseView>,
                    DecodeError,
                >(Some(event@)),
                Ok(None) => event_of(self@) == Ok::<Option<GatewayResponseView>, DecodeError>(
                    None,
                ),
                Err(e) => event_of(self@) == Err::<Option<GatewayResponseView>, DecodeError>(e),
            },
    {
        match self.operation {
            OperationCode::Dispatch => {},
            _ => { return Ok(None); },
        }
        let name = match &self.event_name {
            Some(name) => name.as_str(),
            None => { return Ok(None); },
        };
        if same_text(name, "MESSAGE_CREATE") {
            match Msg::from(&self.payload) {
                Ok(message) => Ok(Some(GatewayResponse::msg_create(message))),
                Err(e) => Err(e),
            }
        } else if same_text(name, "READY") {
            match Guild::from_list(&self.payload) {
                Ok(guilds) => Ok(Some(GatewayResponse::ready(guilds))),
                Err(e) => Err(e),
            }
        } else {
            Ok(None)
        }
    }
}

/// One outbound frame.
#[derive(Debug, Clone, PartialEq, Eq)]
pub enum Outbound {
    /// The liveness signal. It carries no sequence number.
    Heartbeat,
    /// The credential, with the fixed description of this client.
    Identify { token: String },
}

/// An [`Outbound`] frame, as mathematics.
pub enum OutboundView {
    Heartbeat,
    Identify { token: Seq<char> },
}

impl View for Outbound {
    type V = OutboundView;

    open spec fn view(&self) -> OutboundView {
        match self {
            Outbound::Heartbeat => OutboundView::Heartbeat,
            Outbound::Identify { token } => OutboundView::Identify { token: token@ },
        }
    }
}

/// The view of each frame of `frames`.
pub open spec fn outbound_views(frames: Seq<Outbound>) -> Seq<OutboundView> {
    Seq::new(frames.len(), |i: int| frames[i]@)
}

/// The text of a heartbeat frame.
pub open spec fn heartbeat_text() -> Seq<char> {
    "{\"op\":1,\"d\":null}"@
}

/// What an identify frame holds in front of the token.
pub open spec fn identify_prefix() -> Seq<char> {
    "{\"op\":2,\"d\":{\"token\":\""@
}

/// What an identify frame holds behind the token.
pub open spec fn identify_suffix() -> Seq<char> {
    "\",\"properties\":{\"$os\":\"linux\",\"$browser\":\"chrome\",\"$device\":\"pc\"}}}"@
}

/// The text of an identify frame: the token stands between the two fixed
/// parts as a JSON string holds it, so that it is the token of the frame
/// whatever characters it has.
pub open spec fn identify_text(token: Seq<char>) -> Seq<char> {
    identify_prefix() + escaped(token) + identify_suffix()
}

impl OutboundView {
    /// The text that goes on the wire.
    pub open spec fn text(self) -> Seq<char> {
        match self {
            OutboundView::Heartbeat => heartbeat_text(),
            OutboundView::Identify { token } => identify_text(token),
        }
    }
}

impl Outbound {
    /// Writes the frame as the text of a message.
    pub fn encode(&self) -> (text: String)
        ensures
            text@ == self@.text(),
    {
        match self {
            Outbound::Heartbeat => "{\"op\":1,\"d\":null}".to_owned(),
            Outbound::Identify { token } => {
                let mut text = "{\"op\":2,\"d\":{\"token\":\"".to_owned();
                let written = escape(token.as_str());
                text.append(written.as_str());
                text.append(
                    "\",\"properties\":{\"$os\":\"linux\",\"$browser\":\"chrome\",\"$device\":\"pc\"}}}",
                );
                text
            },
        }
    }
}

/// A dispatch of `MESSAGE_CREATE` brings the message that its payload
/// describes, with the identifiers that the decimal strings of the payload
/// spell; where the payload does not decode, the frame brings the error
/// and no event.
pub proof fn lemma_message_create(frame: FrameView)
    requires
        frame.operation == OperationCode::Dispatch,
        frame.event_name == Some("MESSAGE_CREATE"@),
    ensures
        match msg_of(frame.payload) {
            Ok(message) => {
                &&& event_of(frame) matches Ok(Some(event))
                &&& event.message == message
                &&& event.operation == "MESSAGE_CREATE"@
                &&& id_field(frame.payload, "id"@) == Ok::<u64, DecodeError>(
                    message.id,
                )
                &&& id_field(frame.payload, "channel_id"@) == Ok::<
                    u64,
                    DecodeError,
                >(message.channel_id)
                &&& frame.payload.member("author"@) matches Some(author)
                &&& id_field(author, "id"@) == Ok::<u64, DecodeError>(
                    message.user.id,
                )
            },
            Err(e) => event_of(frame) == Err::<Option<GatewayResponseView>, DecodeError>(e),
        },
{
    lemma_msg_ids(frame.payload);
}

/// Whatever the token, an identify frame is its fixed front, its fixed
/// end, and between them a part that reads back as the token itself: no
/// character of the token ends the string or reaches the rest of the
/// frame. A token without a quote, a backslash or a control character
/// stands there as it is.
pub proof fn lemma_identify_holds_token(token: Seq<char>)
    ensures
        ({
            let text = identify_text(token);
            let front = identify_prefix().len() as int;
            let end = text.len() - identify_suffix().len();
            &&& front <= end
            &&& text.subrange(0, front) == identify_prefix()
            &&& text.subrange(end, text.len() as int) == identify_suffix()
            &&& unescaped(text.subrange(front, end)) == Some(token)
        }),
        (forall|i: int|
            0 <= i < token.len() ==> (#[trigger] token[i]) != '"' && token[i] != '\\'
                && !is_control(token[i])) ==> identify_text(token) == identify_prefix() + token
            + identify_suffix(),
{
    let text = identify_text(token);
    let front = identify_prefix().len() as int;
    let end = text.len() - identify_suffix().len();
    lemma_escaped_reads_back(token);
    assert(text.subrange(0, front) =~= identify_prefix());
    assert(text.subrange(end, text.len() as int) =~= identify_suffix());
    assert(text.subrange(front, end) =~= escaped(token));
    if forall|i: int|
        0 <= i < token.len() ==> (#[trigger] token[i]) != '"' && token[i] != '\\' && !is_control(
            token[i],
        ) {
        lemma_escaped_plain(token);
    }
}

/// Every frame that a document holds names an event exactly when it is a
/// dispatch.
pub proof fn lemma_frames_are_well_formed(json: JsonView)
    ensures
        frame_of(json) matches Ok(frame) ==> frame.well_formed(),
{
}

} // verus!
