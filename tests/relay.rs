use nook::hub::{Hub, HubError};
use nook::identity::{Identity, Role};
use nook::link::{LinkAction, LinkEvent};
use nook::registry::{Registry, RegistryError};
use nook::signal::{CallSignal, InboundSignal, SignalType};

fn s(x: &str) -> String {
    x.to_string()
}

fn frame(kind: &str) -> InboundSignal {
    InboundSignal {
        conversation_id: None,
        from_user_id: None,
        to_user_id: None,
        signal_type: s(kind),
        sdp: None,
        candidate: None,
    }
}

fn member(id: &str, name: &str) -> Identity {
    Identity { id: s(id), display_name: s(name), role: Role::Member }
}

#[test]
fn signal_tags_round_trip() {
    for kind in [SignalType::Offer, SignalType::Answer, SignalType::Ice, SignalType::Join, SignalType::Leave] {
        assert_eq!(SignalType::from_tag(&kind.tag()), Some(kind));
    }
    assert_eq!(SignalType::Offer.tag(), "offer");
    assert_eq!(SignalType::Ice.tag(), "ice");
    assert_eq!(SignalType::from_tag("hangup"), None);
    assert_eq!(SignalType::from_tag("Offer"), None);
    assert_eq!(SignalType::from_tag(""), None);
}

#[test]
fn client_sender_and_conversation_are_overwritten() {
    let mut f = frame("answer");
    f.conversation_id = Some(s("conv9"));
    f.from_user_id = Some(s("mallory"));
    f.to_user_id = Some(s("bob"));
    f.sdp = Some(s("v=0"));
    f.candidate = Some(s("{\"candidate\":\"c\"}"));
    let out = CallSignal::from_client(f, &s("alice"), &s("conv1")).unwrap();
    assert_eq!(out.from_user_id, "alice");
    assert_eq!(out.conversation_id, "conv1");
    assert_eq!(out.signal_type, SignalType::Answer);
    assert_eq!(out.to_user_id.as_deref(), Some("bob"));
    assert_eq!(out.sdp.as_deref(), Some("v=0"));
    assert_eq!(out.candidate.as_deref(), Some("{\"candidate\":\"c\"}"));
}

#[test]
fn unknown_signal_type_is_dropped() {
    assert!(CallSignal::from_client(frame("bogus"), &s("alice"), &s("conv1")).is_none());
}

#[test]
fn outbound_filter_drops_own_and_foreign_signals() {
    let sig = CallSignal::announcement(SignalType::Join, &s("alice"), &s("conv1"));
    assert!(!sig.is_deliverable_to(&s("alice"), &s("conv1")));
    assert!(!sig.is_deliverable_to(&s("bob"), &s("conv2")));
    assert!(sig.is_deliverable_to(&s("bob"), &s("conv1")));
}

#[test]
fn offer_reaches_the_other_member_only() {
    let mut hub = Hub::new();
    let join_a = hub.join(1, &s("A"), &s("conv1")).unwrap();
    assert!(join_a.recipients.is_empty());
    assert_eq!(join_a.signal.signal_type, SignalType::Join);
    let join_b = hub.join(2, &s("B"), &s("conv1")).unwrap();
    assert_eq!(join_b.recipients, vec![1]);
    assert_eq!(join_b.signal.from_user_id, "B");
    let mut offer = frame("offer");
    offer.sdp = Some(s("<x>"));
    let out = hub.relay(1, offer).unwrap();
    assert_eq!(out.recipients, vec![2]);
    assert_eq!(out.signal.from_user_id, "A");
    assert_eq!(out.signal.signal_type, SignalType::Offer);
    assert_eq!(out.signal.sdp.as_deref(), Some("<x>"));
    assert!(!out.recipients.contains(&1));
}

#[test]
fn signals_stay_within_their_conversation() {
    let mut hub = Hub::new();
    hub.join(1, &s("A"), &s("conv1")).unwrap();
    hub.join(2, &s("B"), &s("conv1")).unwrap();
    hub.join(3, &s("C"), &s("conv2")).unwrap();
    hub.join(4, &s("D"), &s("conv1")).unwrap();
    let mut spoof = frame("ice");
    spoof.conversation_id = Some(s("conv2"));
    spoof.from_user_id = Some(s("C"));
    let out = hub.relay(1, spoof).unwrap();
    assert_eq!(out.recipients, vec![2, 4]);
    assert_eq!(out.signal.conversation_id, "conv1");
    assert_eq!(out.signal.from_user_id, "A");
    assert_eq!(hub.subscriber_count(&s("conv1")), 3);
    assert_eq!(hub.subscriber_count(&s("conv2")), 1);
    assert_eq!(hub.subscriber_count(&s("conv3")), 0);
}

#[test]
fn relay_on_unknown_connection_or_bad_type_is_dropped() {
    let mut hub = Hub::new();
    hub.join(1, &s("A"), &s("conv1")).unwrap();
    assert!(hub.relay(7, frame("offer")).is_none());
    assert!(hub.relay(1, frame("nonsense")).is_none());
}

#[test]
fn abrupt_disconnect_announces_one_leave() {
    let mut hub = Hub::new();
    hub.join(1, &s("A"), &s("conv1")).unwrap();
    hub.join(2, &s("B"), &s("conv1")).unwrap();
    let leave = hub.leave(1).unwrap();
    assert_eq!(leave.recipients, vec![2]);
    assert_eq!(leave.signal.from_user_id, "A");
    assert_eq!(leave.signal.conversation_id, "conv1");
    assert_eq!(leave.signal.signal_type, SignalType::Leave);
    assert!(hub.leave(1).is_none());
    assert!(hub.relay(1, frame("offer")).is_none());
    assert_eq!(hub.subscriber_count(&s("conv1")), 1);
}

#[test]
fn a_connection_joins_once() {
    let mut hub = Hub::new();
    hub.join(1, &s("A"), &s("conv1")).unwrap();
    assert_eq!(hub.join(1, &s("A"), &s("conv1")).unwrap_err(), HubError::DuplicateConnection);
    assert_eq!(hub.subscriber_count(&s("conv1")), 1);
}

#[test]
fn chat_text_reaches_everyone_but_the_sender() {
    let mut reg = Registry::new();
    let a = member("A", "Alice");
    reg.register(&s("A"), 10).unwrap();
    reg.register(&s("B"), 11).unwrap();
    reg.register(&s("C"), 12).unwrap();
    let d = reg.relay_text(&a, s("hello"), 1700000000);
    assert_eq!(d.recipients, vec![11, 12]);
    assert_eq!(d.message.from, "A");
    assert_eq!(d.message.from_name, "Alice");
    assert_eq!(d.message.content, "hello");
    assert_eq!(d.message.timestamp, 1700000000);
}

#[test]
fn chat_text_is_stamped_with_the_current_time() {
    let mut reg = Registry::new();
    reg.register(&s("B"), 2).unwrap();
    let before = std::time::SystemTime::now()
        .duration_since(std::time::UNIX_EPOCH)
        .unwrap()
        .as_secs() as i64;
    let d = reg.relay_text_now(&member("A", "Alice"), s("hi"));
    assert!(d.message.timestamp >= before && d.message.timestamp <= before + 5);
    assert_eq!(d.recipients, vec![2]);
}

#[test]
fn second_connection_replaces_the_first() {
    let mut reg = Registry::new();
    assert_eq!(reg.register(&s("A"), 1), Ok(None));
    assert_eq!(reg.register(&s("A"), 2), Ok(Some(1)));
    assert_eq!(reg.connection_of(&s("A")), Some(2));
    assert!(!reg.unregister(&s("A"), 1));
    assert_eq!(reg.connection_of(&s("A")), Some(2));
    assert!(reg.unregister(&s("A"), 2));
    assert!(!reg.unregister(&s("A"), 2));
    assert_eq!(reg.connection_of(&s("A")), None);
}

#[test]
fn connection_ids_are_not_shared() {
    let mut reg = Registry::new();
    reg.register(&s("A"), 1).unwrap();
    assert_eq!(reg.register(&s("B"), 1), Err(RegistryError::ConnectionInUse));
    assert_eq!(reg.connection_of(&s("B")), None);
    let d = reg.relay_text(&member("B", "Bob"), s("x"), 0);
    assert_eq!(d.recipients, vec![1]);
}

#[test]
fn unregistered_identity_gets_nothing() {
    let mut reg = Registry::new();
    reg.register(&s("A"), 1).unwrap();
    reg.register(&s("B"), 2).unwrap();
    reg.unregister(&s("B"), 2);
    let d = reg.relay_text(&member("A", "Alice"), s("x"), 0);
    assert!(d.recipients.is_empty());
}

#[test]
fn link_events_end_the_connection_once() {
    let mut hub = Hub::new();
    hub.join(1, &s("A"), &s("conv1")).unwrap();
    hub.join(2, &s("B"), &s("conv1")).unwrap();
    assert!(matches!(hub.on_event(1, LinkEvent::Unreadable), LinkAction::Ignore));
    match hub.on_event(1, LinkEvent::Signal(frame("ice"))) {
        LinkAction::Deliver(out) => {
            assert_eq!(out.recipients, vec![2]);
            assert_eq!(out.signal.signal_type, SignalType::Ice);
        }
        _ => panic!("signal not relayed"),
    }
    assert!(matches!(hub.on_event(1, LinkEvent::Signal(frame("bye"))), LinkAction::Ignore));
    match hub.on_event(1, LinkEvent::Closed) {
        LinkAction::Close(Some(out)) => {
            assert_eq!(out.recipients, vec![2]);
            assert_eq!(out.signal.signal_type, SignalType::Leave);
            assert_eq!(out.signal.from_user_id, "A");
        }
        _ => panic!("no leave announced"),
    }
    assert!(matches!(hub.on_event(1, LinkEvent::Failed), LinkAction::Close(None)));
    assert!(matches!(hub.on_event(1, LinkEvent::Signal(frame("offer"))), LinkAction::Ignore));
}

#[test]
fn failure_announces_the_leave() {
    let mut hub = Hub::new();
    hub.join(1, &s("A"), &s("conv1")).unwrap();
    hub.join(2, &s("B"), &s("conv1")).unwrap();
    match hub.on_event(2, LinkEvent::Failed) {
        LinkAction::Close(Some(out)) => {
            assert_eq!(out.recipients, vec![1]);
            assert_eq!(out.signal.from_user_id, "B");
        }
        _ => panic!("no leave announced"),
    }
    assert!(matches!(hub.on_event(2, LinkEvent::Closed), LinkAction::Close(None)));
}

#[test]
fn clients_cannot_announce_join_or_leave() {
    assert!(CallSignal::from_client(frame("join"), &s("alice"), &s("conv1")).is_none());
    assert!(CallSignal::from_client(frame("leave"), &s("alice"), &s("conv1")).is_none());
    assert!(CallSignal::from_client(frame("ice"), &s("alice"), &s("conv1")).is_some());
    let mut hub = Hub::new();
    hub.join(1, &s("A"), &s("conv1")).unwrap();
    hub.join(2, &s("B"), &s("conv1")).unwrap();
    assert!(hub.relay(1, frame("join")).is_none());
    assert!(hub.relay(1, frame("leave")).is_none());
    assert!(matches!(hub.on_event(1, LinkEvent::Signal(frame("leave"))), LinkAction::Ignore));
    assert_eq!(hub.subscriber_count(&s("conv1")), 2);
}
