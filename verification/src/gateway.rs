//! The connection session: the handshake, the heartbeat timer and the
//! dispatch loop, as one step function from a session and what a read
//! brought to the next session and what is to be done. Whoever owns the
//! socket reads, calls the step, and performs what it asks for.
//!
//! Time is a count of milliseconds on a clock that does not go back.

use crate::data::{guild_list_of, placeholder_msg, GatewayResponse, GatewayResponseView, Guild};
use crate::error::DecodeError;
use crate::frame::{
    event_of, frame_of, frame_of_text, outbound_views, Frame, FrameView, OperationCode,
    Outbound, OutboundView,
};
use crate::json::JsonView;
use crate::payload::{integer_field, read_integer};
use crate::text::same_text;
use crate::sink::{lemma_first_in_first_out, polled, publish_all, EventSink};
use vstd::prelude::*;

verus! {

/// The endpoint of the gateway, with the version of the protocol and the
/// encoding of its frames.
pub const GATEWAY_URL: &'static str = "wss://gateway.discord.gg/?v=9&encoding=json";

/// Where a session stands.
#[derive(Debug, Clone, Copy, PartialEq, Eq, Structural)]
pub enum Phase {
    /// Nothing was read yet: the first frame has to be the hello.
    AwaitingHello,
    /// The credential was sent: the next frame has to be the initial event.
    AwaitingReady,
    /// The handshake is done and the last read brought a message.
    Connected,
    /// The handshake is done and the last read failed.
    Disconnected,
    /// The handshake failed. Nothing is done for such a session any more.
    Failed,
}

/// Why a handshake failed.
#[derive(Debug, Clone, Copy, PartialEq, Eq, Structural)]
pub enum HandshakeError {
    /// The read failed.
    Transport,
    /// What was read is no frame.
    Frame(DecodeError),
    /// The first frame is not the hello.
    ExpectedHello,
    /// The second frame is not the initial event.
    ExpectedReady,
    /// The frame is the expected one, but its payload does not decode.
    Payload(DecodeError),
}

/// What went wrong in one step.
#[derive(Debug, Clone, Copy, PartialEq, Eq, Structural)]
pub enum Fault {
    /// The read failed after the handshake. The session goes on.
    Disconnected,
    /// A message was skipped because it does not decode. The session goes on.
    Skipped(DecodeError),
    /// The handshake failed. The session is of no use any more.
    Fatal(HandshakeError),
}

/// What one read brought.
#[derive(Debug, PartialEq, Eq)]
pub enum Arrival {
    Frame(Frame),
    /// A message that is no frame.
    Undecodable(DecodeError),
    /// No message: the read failed.
    ReadFailed,
}

/// An [`Arrival`], as mathematics.
pub enum ArrivalView {
    Frame(FrameView),
    Undecodable(DecodeError),
    ReadFailed,
}

impl View for Arrival {
    type V = ArrivalView;

    open spec fn view(&self) -> ArrivalView {
        match self {
            Arrival::Frame(frame) => ArrivalView::Frame(frame@),
            Arrival::Undecodable(e) => ArrivalView::Undecodable(*e),
            Arrival::ReadFailed => ArrivalView::ReadFailed,
        }
    }
}

/// What a read brought, from the text of the message that it returned, or
/// from `None` where it failed.
pub open spec fn arrival_of(message: Option<Seq<char>>) -> ArrivalView {
    match message {
        None => ArrivalView::ReadFailed,
        Some(text) => match frame_of_text(text) {
            Ok(frame) => ArrivalView::Frame(frame),
            Err(e) => ArrivalView::Undecodable(e),
        },
    }
}

/// A session with the gateway.
#[derive(Debug)]
pub struct Session {
    phase: Phase,
    token: String,
    heartbeat_interval: i64,
    last_heartbeat: u64,
}

/// A [`Session`], as mathematics.
pub struct SessionView {
    pub phase: Phase,
    pub token: Seq<char>,
    /// Milliseconds between two heartbeats, as the hello gave it.
    pub heartbeat_interval: i64,
    /// When the last heartbeat was sent or, before the first one, when the
    /// handshake was done.
    pub last_heartbeat: u64,
}

impl View for Session {
    type V = SessionView;

    closed spec fn view(&self) -> SessionView {
        SessionView {
            phase: self.phase,
            token: self.token@,
            heartbeat_interval: self.heartbeat_interval,
            last_heartbeat: self.last_heartbeat,
        }
    }
}

/// What one step does: the session after it, the frames to send and the
/// events to publish, each in order, and what went wrong.
pub struct Outcome {
    pub next: SessionView,
    pub sends: Seq<OutboundView>,
    pub events: Seq<GatewayResponseView>,
    pub fault: Option<Fault>,
}

impl SessionView {
    /// Whether the handshake is done and the session is in its loop.
    pub open spec fn steady(self) -> bool {
        self.phase == Phase::Connected || self.phase == Phase::Disconnected
    }

    /// The milliseconds since the last heartbeat.
    pub open spec fn elapsed(self, now: u64) -> int {
        if now >= self.last_heartbeat {
            now - self.last_heartbeat
        } else {
            0
        }
    }

    /// Whether a heartbeat is due: the interval has elapsed.
    pub open spec fn due(self, now: u64) -> bool {
        self.heartbeat_interval <= self.elapsed(now)
    }

    /// A step that does nothing.
    pub open spec fn quiet(self) -> Outcome {
        Outcome { next: self, sends: Seq::empty(), events: Seq::empty(), fault: None }
    }

    /// A step that ends the handshake for the reason `why`.
    pub open spec fn fail(self, why: HandshakeError) -> Outcome {
        Outcome {
            next: SessionView { phase: Phase::Failed, ..self },
            sends: Seq::empty(),
            events: Seq::empty(),
            fault: Some(Fault::Fatal(why)),
        }
    }

    /// The first step of the handshake: the frame has to be the hello with
    /// its heartbeat interval, and is answered by the credential.
    pub open spec fn greet(self, arrival: ArrivalView) -> Outcome {
        match arrival {
            ArrivalView::ReadFailed => self.fail(HandshakeError::Transport),
            ArrivalView::Undecodable(e) => self.fail(HandshakeError::Frame(e)),
            ArrivalView::Frame(frame) => if frame.operation != OperationCode::Hello {
                self.fail(HandshakeError::ExpectedHello)
            } else {
                match integer_field(frame.payload, "heartbeat_interval"@) {
                    Err(e) => self.fail(HandshakeError::Payload(e)),
                    Ok(interval) => Outcome {
                        next: SessionView {
                            phase: Phase::AwaitingReady,
                            heartbeat_interval: interval,
                            ..self
                        },
                        sends: seq![OutboundView::Identify { token: self.token }],
                        events: Seq::empty(),
                        fault: None,
                    },
                }
            },
        }
    }

    /// The second step of the handshake: the frame has to be the initial
    /// event, whose guilds are published. The heartbeat timer starts.
    pub open spec fn welcome(self, arrival: ArrivalView, now: u64) -> Outcome {
        match arrival {
            ArrivalView::ReadFailed => self.fail(HandshakeError::Transport),
            ArrivalView::Undecodable(e) => self.fail(HandshakeError::Frame(e)),
            ArrivalView::Frame(frame) => if !(frame.operation == OperationCode::Dispatch
                && frame.event_name == Some("READY"@)) {
                self.fail(HandshakeError::ExpectedReady)
            } else {
                match guild_list_of(frame.payload) {
                    Err(e) => self.fail(HandshakeError::Payload(e)),
                    Ok(guilds) => Outcome {
                        next: SessionView {
                            phase: Phase::Connected,
                            last_heartbeat: now,
                            ..self
                        },
                        sends: Seq::empty(),
                        events: seq![
                            GatewayResponseView {
                                operation: "READY"@,
                                message: placeholder_msg(),
                                guilds,
                            },
                        ],
                        fault: None,
                    },
                }
            },
        }
    }

    /// The first half of a step of the loop: what the read brought is
    /// routed. A request for a heartbeat is answered at once.
    pub open spec fn route(self, arrival: ArrivalView, now: u64) -> Outcome {
        match arrival {
            ArrivalView::ReadFailed => Outcome {
                next: SessionView { phase: Phase::Disconnected, ..self },
                sends: Seq::empty(),
                events: Seq::empty(),
                fault: Some(Fault::Disconnected),
            },
            ArrivalView::Undecodable(e) => Outcome {
                next: SessionView { phase: Phase::Connected, ..self },
                sends: Seq::empty(),
                events: Seq::empty(),
                fault: Some(Fault::Skipped(e)),
            },
            ArrivalView::Frame(frame) => {
                let connected = SessionView { phase: Phase::Connected, ..self };
                if frame.operation == OperationCode::HeartbeatRequest {
                    Outcome {
                        next: SessionView { last_heartbeat: now, ..connected },
                        sends: seq![OutboundView::Heartbeat],
                        events: Seq::empty(),
                        fault: None,
                    }
                } else {
                    match event_of(frame) {
                        Err(e) => Outcome {
                            next: connected,
                            sends: Seq::empty(),
                            events: Seq::empty(),
                            fault: Some(Fault::Skipped(e)),
                        },
                        Ok(None) => connected.quiet(),
                        Ok(Some(event)) => Outcome {
                            next: connected,
                            sends: Seq::empty(),
                            events: seq![event],
                            fault: None,
                        },
                    }
                }
            },
        }
    }

    /// One step of the loop: the routing, then the timer, whatever the read
    /// brought. Where the interval has elapsed a heartbeat is sent and the
    /// timer starts again.
    pub open spec fn turn(self, arrival: ArrivalView, now: u64) -> Outcome {
        let routed = self.route(arrival, now);
        if routed.next.due(now) {
            Outcome {
                next: SessionView { last_heartbeat: now, ..routed.next },
                sends: routed.sends.push(OutboundView::Heartbeat),
                events: routed.events,
                fault: routed.fault,
            }
        } else {
            routed
        }
    }

    /// One step of a session, at time `now`.
    pub open spec fn react(self, arrival: ArrivalView, now: u64) -> Outcome {
        match self.phase {
            Phase::AwaitingHello => self.greet(arrival),
            Phase::AwaitingReady => self.welcome(arrival, now),
            Phase::Connected => self.turn(arrival, now),
            Phase::Disconnected => self.turn(arrival, now),
            Phase::Failed => self.quiet(),
        }
    }
}

/// What the caller of a step has to do, beside taking the published events
/// from the sink.
#[derive(Debug)]
pub struct Reaction {
    /// The frames to send, in this order.
    pub sends: Vec<Outbound>,
    pub fault: Option<Fault>,
}

/// The characters of the message, where there is one.
pub open spec fn text_of(message: Option<&str>) -> Option<Seq<char>> {
    match message {
        Some(text) => Some(text@),
        None => None,
    }
}

/// Whether `frame` is the dispatch of the event `name`.
fn dispatches(frame: &Frame, name: &str) -> (b: bool)
    ensures
        b == (frame@.operation == OperationCode::Dispatch && frame@.event_name == Some(name@)),
{
    match frame.operation {
        OperationCode::Dispatch => match &frame.event_name {
            Some(event_name) => same_text(event_name.as_str(), name),
            None => false,
        },
        _ => false,
    }
}

impl Session {
    /// A session that has read nothing yet. `token` is the credential that
    /// it will present.
    pub fn new(token: &str) -> (session: Session)
        ensures
            session@ == (SessionView {
                phase: Phase::AwaitingHello,
                token: token@,
                heartbeat_interval: 0,
                last_heartbeat: 0,
            }),
    {
        Session {
            phase: Phase::AwaitingHello,
            token: token.to_owned(),
            heartbeat_interval: 0,
            last_heartbeat: 0,
        }
    }

    /// Where the session stands.
    pub fn phase(&self) -> (phase: Phase)
        ensures
            phase == self@.phase,
    {
        self.phase
    }

    /// The milliseconds between two heartbeats; 0 before the hello.
    pub fn heartbeat_interval(&self) -> (interval: i64)
        ensures
            interval == self@.heartbeat_interval,
    {
        self.heartbeat_interval
    }

    /// When the heartbeat timer was started last.
    pub fn last_heartbeat(&self) -> (at: u64)
        ensures
            at == self@.last_heartbeat,
    {
        self.last_heartbeat
    }

    /// Whether the heartbeat interval has elapsed at `now`.
    pub fn is_due(&self, now: u64) -> (due: bool)
        ensures
            due == self@.due(now),
    {
        let elapsed: u64 = if now >= self.last_heartbeat {
            now - self.last_heartbeat
        } else {
            0
        };
        if self.heartbeat_interval <= 0 {
            true
        } else {
            self.heartbeat_interval as u64 <= elapsed
        }
    }

    fn fail(&mut self, why: HandshakeError) -> (reaction: Reaction)
        ensures
            final(self)@ == old(self)@.fail(why).next,
            outbound_views(reaction.sends@) == old(self)@.fail(why).sends,
            reaction.fault == old(self)@.fail(why).fault,
    {
        self.phase = Phase::Failed;
        let reaction = Reaction { sends: Vec::new(), fault: Some(Fault::Fatal(why)) };
        assert(outbound_views(reaction.sends@) =~= Seq::<OutboundView>::empty());
        reaction
    }

    fn greet(&mut self, arrival: Arrival) -> (reaction: Reaction)
        ensures
            final(self)@ == old(self)@.greet(arrival@).next,
            outbound_views(reaction.sends@) == old(self)@.greet(arrival@).sends,
            old(self)@.greet(arrival@).events == Seq::<GatewayResponseView>::empty(),
            reaction.fault == old(self)@.greet(arrival@).fault,
    {
        match arrival {
            Arrival::ReadFailed => self.fail(HandshakeError::Transport),
            Arrival::Undecodable(e) => self.fail(HandshakeError::Frame(e)),
            Arrival::Frame(frame) => {
                match frame.operation {
                    OperationCode::Hello => {},
                    _ => { return self.fail(HandshakeError::ExpectedHello); },
                }
                match read_integer(&frame.payload, "heartbeat_interval") {
                    Err(e) => self.fail(HandshakeError::Payload(e)),
                    Ok(interval) => {
                        self.phase = Phase::AwaitingReady;
                        self.heartbeat_interval = interval;
                        let mut sends: Vec<Outbound> = Vec::new();
                        sends.push(Outbound::Identify { token: self.token.clone() });
                        assert(outbound_views(sends@) =~= seq![
                            OutboundView::Identify { token: old(self)@.token },
                        ]);
                        Reaction { sends, fault: None }
                    },
                }
            },
        }
    }

    fn welcome(&mut self, arrival: Arrival, now: u64, sink: &mut EventSink) -> (reaction:
        Reaction)
        ensures
            final(self)@ == old(self)@.welcome(arrival@, now).next,
            outbound_views(reaction.sends@) == old(self)@.welcome(arrival@, now).sends,
            final(sink)@ == old(sink)@ + old(self)@.welcome(arrival@, now).events,
            reaction.fault == old(self)@.welcome(arrival@, now).fault,
    {
        assert(old(sink)@ + Seq::<GatewayResponseView>::empty() =~= old(sink)@);
        match arrival {
            Arrival::ReadFailed => self.fail(HandshakeError::Transport),
            Arrival::Undecodable(e) => self.fail(HandshakeError::Frame(e)),
            Arrival::Frame(frame) => {
                if !dispatches(&frame, "READY") {
                    return self.fail(HandshakeError::ExpectedReady);
                }
                match Guild::from_list(&frame.payload) {
                    Err(e) => self.fail(HandshakeError::Payload(e)),
                    Ok(guilds) => {
                        self.phase = Phase::Connected;
                        self.last_heartbeat = now;
                        let event = GatewayResponse::ready(guilds);
                        assert(old(sink)@ + seq![event@] =~= old(sink)@.push(event@));
                        sink.publish(event);
                        let reaction = Reaction { sends: Vec::new(), fault: None };
                        assert(outbound_views(reaction.sends@) =~= Seq::<OutboundView>::empty());
                        reaction
                    },
                }
            },
        }
    }

    fn route(&mut self, arrival: Arrival, now: u64, sink: &mut EventSink) -> (reaction: Reaction)
        ensures
            final(self)@ == old(self)@.route(arrival@, now).next,
            outbound_views(reaction.sends@) == old(self)@.route(arrival@, now).sends,
            final(sink)@ == old(sink)@ + old(self)@.route(arrival@, now).events,
            reaction.fault == old(self)@.route(arrival@, now).fault,
    {
        assert(old(sink)@ + Seq::<GatewayResponseView>::empty() =~= old(sink)@);
        let mut sends: Vec<Outbound> = Vec::new();
        assert(outbound_views(sends@) =~= Seq::<OutboundView>::empty());
        match arrival {
            Arrival::ReadFailed => {
                self.phase = Phase::Disconnected;
                Reaction { sends, fault: Some(Fault::Disconnected) }
            },
            Arrival::Undecodable(e) => {
                self.phase = Phase::Connected;
                Reaction { sends, fault: Some(Fault::Skipped(e)) }
            },
            Arrival::Frame(frame) => {
                self.phase = Phase::Connected;
                match frame.operation {
                    OperationCode::HeartbeatRequest => {
                        self.last_heartbeat = now;
                        sends.push(Outbound::Heartbeat);
                        assert(outbound_views(sends@) =~= seq![OutboundView::Heartbeat]);
                        Reaction { sends, fault: None }
                    },
                    _ => match frame.event() {
                        Err(e) => Reaction { sends, fault: Some(Fault::Skipped(e)) },
                        Ok(None) => Reaction { sends, fault: None },
                        Ok(Some(event)) => {
                            assert(old(sink)@ + seq![event@] =~= old(sink)@.push(event@));
                            sink.publish(event);
                            Reaction { sends, fault: None }
                        },
                    },
                }
            },
        }
    }

    fn turn(&mut self, arrival: Arrival, now: u64, sink: &mut EventSink) -> (reaction: Reaction)
        ensures
            final(self)@ == old(self)@.turn(arrival@, now).next,
            outbound_views(reaction.sends@) == old(self)@.turn(arrival@, now).sends,
            final(sink)@ == old(sink)@ + old(self)@.turn(arrival@, now).events,
            reaction.fault == old(self)@.turn(arrival@, now).fault,
    {
        let routed = self.route(arrival, now, sink);
        if self.is_due(now) {
            self.last_heartbeat = now;
            let mut sends = routed.sends;
            let ghost before = sends@;
            sends.push(Outbound::Heartbeat);
            assert(outbound_views(sends@) =~= outbound_views(before).push(
                OutboundView::Heartbeat,
            ));
            Reaction { sends, fault: routed.fault }
        } else {
            routed
        }
    }

    /// One step of the session, on what a read brought at time `now`. The
    /// events of the step are published to `sink`; the frames to send and
    /// the fault, if there is one, come back.
    pub fn on_arrival(&mut self, arrival: Arrival, now: u64, sink: &mut EventSink) -> (reaction:
        Reaction)
        ensures
            final(self)@ == old(self)@.react(arrival@, now).next,
            outbound_views(reaction.sends@) == old(self)@.react(arrival@, now).sends,
            final(sink)@ == old(sink)@ + old(self)@.react(arrival@, now).events,
            reaction.fault == old(self)@.react(arrival@, now).fault,
    {
        assert(old(sink)@ + Seq::<GatewayResponseView>::empty() =~= old(sink)@);
        match self.phase {
            Phase::AwaitingHello => self.greet(arrival),
            Phase::AwaitingReady => self.welcome(arrival, now, sink),
            Phase::Connected => self.turn(arrival, now, sink),
            Phase::Disconnected => self.turn(arrival, now, sink),
            Phase::Failed => {
                let reaction = Reaction { sends: Vec::new(), fault: None };
                assert(outbound_views(reaction.sends@) =~= Seq::<OutboundView>::empty());
                reaction
            },
        }
    }

    /// One step of the session, on the text of the message that a read
    /// returned at time `now`, or on `None` where the read failed.
    pub fn step(&mut self, message: Option<&str>, now: u64, sink: &mut EventSink) -> (reaction:
        Reaction)
        ensures
            final(self)@ == old(self)@.react(arrival_of(text_of(message)), now).next,
            outbound_views(reaction.sends@) == old(self)@.react(
                arrival_of(text_of(message)),
                now,
            ).sends,
            final(sink)@ == old(sink)@ + old(self)@.react(
                arrival_of(text_of(message)),
                now,
            ).events,
            reaction.fault == old(self)@.react(arrival_of(text_of(message)), now).fault,
    {
        let arrival = match message {
            None => Arrival::ReadFailed,
            Some(text) => match Frame::decode(text) {
                Ok(frame) => Arrival::Frame(frame),
                Err(e) => Arrival::Undecodable(e),
            },
        };
        self.on_arrival(arrival, now, sink)
    }
}

/// The events that a session publishes over a run of steps, each step on
/// what a read brought and at the time that stands beside it.
pub open spec fn published(
    session: SessionView,
    arrivals: Seq<(ArrivalView, u64)>,
) -> Seq<GatewayResponseView>
    decreases arrivals.len(),
{
    if arrivals.len() == 0 {
        Seq::empty()
    } else {
        let outcome = session.react(arrivals[0].0, arrivals[0].1);
        outcome.events + published(outcome.next, arrivals.skip(1))
    }
}

/// Whether `arrival` is a dispatch frame that brings an event.
pub open spec fn brings_event(arrival: ArrivalView) -> bool {
    arrival matches ArrivalView::Frame(frame) && frame.operation == OperationCode::Dispatch
        && event_of(frame) matches Ok(Some(_))
}

/// The event that a dispatch frame brings.
pub open spec fn event_brought(arrival: ArrivalView) -> GatewayResponseView {
    event_of(arrival->Frame_0)->Ok_0->Some_0
}

/// A document whose operation code is that of the hello, and whose payload
/// holds an integer heartbeat interval, is a frame that sets the interval
/// of a waiting session to that integer, in milliseconds as it came; the
/// session answers with its credential and waits for the initial event.
pub proof fn lemma_hello_sets_interval(
    session: SessionView,
    json: JsonView,
    payload: JsonView,
    interval: i64,
    now: u64,
)
    requires
        session.phase == Phase::AwaitingHello,
        integer_field(json, "op"@) == Ok::<i64, DecodeError>(10),
        json.member("d"@) == Some(payload),
        integer_field(payload, "heartbeat_interval"@) == Ok::<i64, DecodeError>(interval),
    ensures
        frame_of(json) matches Ok(frame) && frame.operation == OperationCode::Hello && ({
            let outcome = session.react(ArrivalView::Frame(frame), now);
            &&& outcome.next.heartbeat_interval == interval
            &&& outcome.next.phase == Phase::AwaitingReady
            &&& outcome.sends == seq![OutboundView::Identify { token: session.token }]
            &&& outcome.events == Seq::<GatewayResponseView>::empty()
            &&& outcome.fault is None
        }),
{
}

/// Whether `arrival` is a frame in which the server asks for a heartbeat.
pub open spec fn asks_for_heartbeat(arrival: ArrivalView) -> bool {
    arrival matches ArrivalView::Frame(frame) && frame.operation
        == OperationCode::HeartbeatRequest
}

/// In the loop, where the server did not ask for a heartbeat, one is sent
/// in a step exactly when the interval has elapsed since the last one, and
/// the timer starts again with it. So none is sent before the interval has
/// elapsed, and after every step less than a positive interval has elapsed
/// since the last heartbeat.
pub proof fn lemma_heartbeat_timing(session: SessionView, arrival: ArrivalView, now: u64)
    requires
        session.steady(),
        !asks_for_heartbeat(arrival),
    ensures
        ({
            let outcome = session.react(arrival, now);
            &&& outcome.sends == if session.due(now) {
                seq![OutboundView::Heartbeat]
            } else {
                Seq::<OutboundView>::empty()
            }
            &&& outcome.next.last_heartbeat == if session.due(now) {
                now
            } else {
                session.last_heartbeat
            }
            &&& session.heartbeat_interval > 0 ==> outcome.next.elapsed(now)
                < session.heartbeat_interval
        }),
{
    let routed = session.route(arrival, now);
    assert(routed.sends =~= Seq::<OutboundView>::empty());
    assert(routed.sends.push(OutboundView::Heartbeat) =~= seq![OutboundView::Heartbeat]);
}

/// Whether the times of a run of steps are those of a clock that does not
/// go back, read no earlier than `start`.
pub open spec fn clock_from(start: u64, arrivals: Seq<(ArrivalView, u64)>) -> bool {
    &&& forall|i: int| 0 <= i < arrivals.len() ==> start <= (#[trigger] arrivals[i]).1
    &&& forall|i: int, j: int|
        0 <= i <= j < arrivals.len() ==> (#[trigger] arrivals[i]).1 <= (#[trigger] arrivals[j]).1
}

/// The times of the steps of a run in which a heartbeat is sent.
pub open spec fn beat_times(session: SessionView, arrivals: Seq<(ArrivalView, u64)>) -> Seq<u64>
    decreases arrivals.len(),
{
    if arrivals.len() == 0 {
        Seq::empty()
    } else {
        let outcome = session.react(arrivals[0].0, arrivals[0].1);
        let rest = beat_times(outcome.next, arrivals.skip(1));
        if outcome.sends.contains(OutboundView::Heartbeat) {
            seq![arrivals[0].1] + rest
        } else {
            rest
        }
    }
}

/// The time of the heartbeat before the one at place `k` of `beats`; for
/// the first one, the time at which the timer stood at the start.
pub open spec fn beat_before(start: u64, beats: Seq<u64>, k: int) -> u64 {
    if k == 0 {
        start
    } else {
        beats[k - 1]
    }
}

/// Over a run of the loop in which the server never asks for a heartbeat,
/// no heartbeat is sent before the interval has elapsed since the one
/// before it.
pub proof fn lemma_heartbeats_are_spaced(session: SessionView, arrivals: Seq<(ArrivalView, u64)>)
    requires
        session.steady(),
        clock_from(session.last_heartbeat, arrivals),
        forall|i: int| 0 <= i < arrivals.len() ==> !asks_for_heartbeat((#[trigger] arrivals[i]).0),
    ensures
        forall|k: int|
            0 <= k < beat_times(session, arrivals).len() ==> #[trigger] beat_times(
                session,
                arrivals,
            )[k] - beat_before(session.last_heartbeat, beat_times(session, arrivals), k)
                >= session.heartbeat_interval,
    decreases arrivals.len(),
{
    if arrivals.len() > 0 {
        let now = arrivals[0].1;
        let outcome = session.react(arrivals[0].0, now);
        let rest = arrivals.skip(1);
        let beats = beat_times(session, arrivals);
        let later = beat_times(outcome.next, rest);
        assert(!asks_for_heartbeat(arrivals[0].0));
        assert(session.last_heartbeat <= now);
        lemma_heartbeat_timing(session, arrivals[0].0, now);
        lemma_loop_goes_on(session, arrivals[0].0, now);
        assert forall|i: int| 0 <= i < rest.len() implies !asks_for_heartbeat(
            (#[trigger] rest[i]).0,
        ) by {
            assert(rest[i] == arrivals[i + 1]);
        }
        assert(clock_from(outcome.next.last_heartbeat, rest)) by {
            assert forall|i: int| 0 <= i < rest.len() implies outcome.next.last_heartbeat <= (
            #[trigger] rest[i]).1 by {
                assert(rest[i] == arrivals[i + 1]);
                assert(arrivals[0].1 <= arrivals[i + 1].1);
            }
            assert forall|i: int, j: int| 0 <= i <= j < rest.len() implies (#[trigger] rest[i]).1
                <= (#[trigger] rest[j]).1 by {
                assert(rest[i] == arrivals[i + 1]);
                assert(rest[j] == arrivals[j + 1]);
            }
        }
        lemma_heartbeats_are_spaced(outcome.next, rest);
        if session.due(now) {
            assert(outcome.sends[0] == OutboundView::Heartbeat);
            assert(beats =~= seq![now] + later);
            assert forall|k: int| 0 <= k < beats.len() implies #[trigger] beats[k] - beat_before(
                session.last_heartbeat,
                beats,
                k,
            ) >= session.heartbeat_interval by {
                if k > 0 {
                    assert(beats[k] == later[k - 1]);
                    assert(beat_before(session.last_heartbeat, beats, k) == beat_before(
                        outcome.next.last_heartbeat,
                        later,
                        k - 1,
                    ));
                }
            }
        } else {
            assert(beats =~= later);
        }
    }
}

/// In the loop, a frame in which the server asks for a heartbeat is
/// answered with one in the same step, first of all that the step sends,
/// however little time has elapsed.
pub proof fn lemma_heartbeat_on_request(session: SessionView, frame: FrameView, now: u64)
    requires
        session.steady(),
        frame.operation == OperationCode::HeartbeatRequest,
    ensures
        ({
            let outcome = session.react(ArrivalView::Frame(frame), now);
            &&& outcome.sends.len() >= 1
            &&& outcome.sends[0] == OutboundView::Heartbeat
            &&& outcome.next.last_heartbeat == now
            &&& outcome.next.phase == Phase::Connected
            &&& outcome.fault is None
        }),
{
}

/// In the loop, a dispatch of an event that this client does not know
/// publishes nothing and is no fault.
pub proof fn lemma_unknown_event_ignored(session: SessionView, frame: FrameView, now: u64)
    requires
        session.steady(),
        frame.operation == OperationCode::Dispatch,
        frame.event_name != Some("MESSAGE_CREATE"@),
        frame.event_name != Some("READY"@),
    ensures
        ({
            let outcome = session.react(ArrivalView::Frame(frame), now);
            &&& outcome.events == Seq::<GatewayResponseView>::empty()
            &&& outcome.fault is None
            &&& outcome.next.phase == Phase::Connected
        }),
{
}

/// A document without an integer operation code is no frame.
pub proof fn lemma_missing_operation(json: JsonView)
    requires
        integer_field(json, "op"@) is Err,
    ensures
        frame_of(json) == Err::<FrameView, DecodeError>(DecodeError::MissingOperation),
{
}

/// In the loop, a message that is no frame is skipped: the step reports
/// it, publishes nothing, and leaves the session in the loop.
pub proof fn lemma_undecodable_skipped(session: SessionView, e: DecodeError, now: u64)
    requires
        session.steady(),
    ensures
        ({
            let outcome = session.react(ArrivalView::Undecodable(e), now);
            &&& outcome.fault == Some(Fault::Skipped(e))
            &&& outcome.events == Seq::<GatewayResponseView>::empty()
            &&& outcome.next.phase == Phase::Connected
        }),
{
}

/// The handshake is strict. The loop is entered only from the second step
/// of the handshake, by the initial event and with the timer started at
/// that moment; the first step leads to the second only by a hello. A
/// session whose handshake failed stays failed and asks for nothing.
pub proof fn lemma_handshake_is_strict(session: SessionView, arrival: ArrivalView, now: u64)
    ensures
        ({
            let outcome = session.react(arrival, now);
            &&& !session.steady() && outcome.next.steady() ==> {
                &&& session.phase == Phase::AwaitingReady
                &&& arrival matches ArrivalView::Frame(frame)
                &&& frame.operation == OperationCode::Dispatch
                &&& frame.event_name == Some("READY"@)
                &&& outcome.events.len() == 1
                &&& outcome.next.phase == Phase::Connected
                &&& outcome.next.last_heartbeat == now
            }
            &&& session.phase == Phase::AwaitingHello ==> {
                ||| outcome.next.phase == Phase::Failed && outcome.fault is Some
                ||| outcome.next.phase == Phase::AwaitingReady && (arrival matches ArrivalView::Frame(
                    frame,
                ) && frame.operation == OperationCode::Hello)
            }
            &&& session.phase == Phase::AwaitingReady ==> {
                ||| outcome.next.phase == Phase::Failed && outcome.fault is Some
                ||| outcome.next.phase == Phase::Connected
            }
            &&& session.phase == Phase::Failed ==> outcome == session.quiet()
            &&& !session.steady() ==> outcome.next.token == session.token
        }),
{
}

/// No step leads out of the loop, whatever a read brings, and none changes
/// the heartbeat interval or the credential.
pub proof fn lemma_loop_goes_on(session: SessionView, arrival: ArrivalView, now: u64)
    requires
        session.steady(),
    ensures
        session.react(arrival, now).next.steady(),
        session.react(arrival, now).next.heartbeat_interval == session.heartbeat_interval,
        session.react(arrival, now).next.token == session.token,
        arrival is ReadFailed <==> session.react(arrival, now).next.phase == Phase::Disconnected,
{
}

/// In the loop, dispatch frames that each bring an event publish exactly
/// those events, one for each frame and in the order of the frames.
pub proof fn lemma_publishes_in_order(session: SessionView, arrivals: Seq<(ArrivalView, u64)>)
    requires
        session.steady(),
        forall|i: int| 0 <= i < arrivals.len() ==> brings_event((#[trigger] arrivals[i]).0),
    ensures
        published(session, arrivals) == Seq::new(
            arrivals.len(),
            |i: int| event_brought(arrivals[i].0),
        ),
    decreases arrivals.len(),
{
    let expected = Seq::new(arrivals.len(), |i: int| event_brought(arrivals[i].0));
    if arrivals.len() == 0 {
        assert(published(session, arrivals) =~= expected);
    } else {
        let outcome = session.react(arrivals[0].0, arrivals[0].1);
        let rest = arrivals.skip(1);
        assert(brings_event(arrivals[0].0));
        assert(outcome.events =~= seq![event_brought(arrivals[0].0)]);
        assert forall|i: int| 0 <= i < rest.len() implies brings_event((#[trigger] rest[i]).0) by {
            assert(rest[i] == arrivals[i + 1]);
        }
        lemma_loop_goes_on(session, arrivals[0].0, arrivals[0].1);
        lemma_publishes_in_order(outcome.next, rest);
        assert(published(session, arrivals) =~= expected);
    }
}

/// The consumer of an empty sink observes the events of such frames in the
/// order in which the frames came.
pub proof fn lemma_consumer_sees_frame_order(
    session: SessionView,
    arrivals: Seq<(ArrivalView, u64)>,
)
    requires
        session.steady(),
        forall|i: int| 0 <= i < arrivals.len() ==> brings_event((#[trigger] arrivals[i]).0),
    ensures
        polled(publish_all(Seq::empty(), published(session, arrivals)), arrivals.len())
            == Seq::new(arrivals.len(), |i: int| event_brought(arrivals[i].0)),
{
    lemma_publishes_in_order(session, arrivals);
    lemma_first_in_first_out(published(session, arrivals));
}

} // verus!
