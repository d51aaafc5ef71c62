use disrust::data::{GatewayResponse, Msg};
use disrust::sink::EventSink;

fn event(id: u64) -> GatewayResponse {
    let mut msg = Msg::new();
    msg.id = id;
    GatewayResponse::msg_create(msg)
}

#[test]
fn new_sink_is_empty() {
    let mut sink = EventSink::new();
    assert_eq!(sink.len(), 0);
    assert!(sink.poll().is_none());
    assert_eq!(sink.len(), 0);
}

#[test]
fn events_leave_in_the_order_in_which_they_came() {
    let mut sink = EventSink::new();
    for id in 0..100u64 {
        sink.publish(event(id));
    }
    assert_eq!(sink.len(), 100);
    for id in 0..100u64 {
        assert_eq!(sink.poll().expect("an event").message.id, id);
    }
    assert!(sink.poll().is_none());
}

#[test]
fn publishing_and_polling_may_alternate() {
    let mut sink = EventSink::new();
    sink.publish(event(1));
    sink.publish(event(2));
    assert_eq!(sink.poll().expect("an event").message.id, 1);
    sink.publish(event(3));
    assert_eq!(sink.len(), 2);
    assert_eq!(sink.poll().expect("an event").message.id, 2);
    assert_eq!(sink.poll().expect("an event").message.id, 3);
    assert!(sink.poll().is_none());
}
