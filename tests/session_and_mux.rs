use livestream::multiplexer::RedisMultiplexed;
use livestream::session::{anonymous_name, new_session_id, Action, Effect, MyErrorKind, Session, State};
use livestream::types::{Video, VideoStatus, WsPacket};

fn video(id: &str, status: VideoStatus) -> Video {
    Video { id: id.to_string(), title: "t".to_string(), description: "d".to_string(), status }
}

fn live(id: &str) -> Option<Video> {
    Some(video(id, VideoStatus::Live { started_timestamp: 10, viewers: 0 }))
}

fn join(room: &str) -> WsPacket {
    WsPacket::Join { room: room.to_string() }
}

fn say(m: &str) -> WsPacket {
    WsPacket::ClientMessage { message: m.to_string() }
}

#[test]
fn anonymous_names() {
    assert_eq!(anonymous_name(0), "Anon0");
    assert_eq!(anonymous_name(65535), "Anon65535");
    let id = new_session_id();
    assert!(id.starts_with("Anon"));
    assert!(id[4..].parse::<u16>().is_ok());
}

#[test]
fn unjoined_session_rejects_everything_but_join() {
    let frames = vec![
        say("hi"),
        WsPacket::GetInvoice { amount: 5000, message: "gg".to_string() },
        WsPacket::UpdateViewers { viewers: 3 },
        WsPacket::Invoice { id: "x".to_string() },
    ];
    for f in frames {
        let r = State::default().apply(f, live("v1"));
        assert_eq!(r.err().unwrap().kind, MyErrorKind::Rejected);
    }
}

#[test]
fn join_needs_a_live_or_scheduled_video() {
    let (s, a) = State::default().apply(join("v1"), live("v1")).ok().unwrap();
    assert_eq!(s.room, Some("v1".to_string()));
    assert!(matches!(a, Action::Subscribe(r) if r == "v1"));
    let scheduled = Some(video("v1", VideoStatus::Scheduled { timestamp: 5 }));
    assert!(State::default().apply(join("v1"), scheduled).is_ok());
    assert!(State::default().apply(join("v1"), Some(video("v1", VideoStatus::Processing))).is_err());
    assert!(State::default().apply(join("v1"), None).is_err());
}

#[test]
fn joined_session_relays_and_requests_invoices() {
    let mut s = Session::new("Anon1".to_string());
    assert!(matches!(s.handle(join("v1"), live("v1")), Ok(Effect::Subscribe { .. })));
    assert!(s.handle(say(""), None).is_err());
    assert!(s.handle(join("v2"), live("v2")).is_err());
    assert_eq!(s.state.room, Some("v1".to_string()));
    match s.handle(WsPacket::GetInvoice { amount: 5000, message: "gg".to_string() }, None) {
        Ok(Effect::RequestInvoice { amount, message }) => {
            assert_eq!(amount, 5000);
            assert_eq!(message, "gg");
        }
        _ => panic!("expected an invoice request"),
    }
    let (record, frame) = s.invoice_created("inv9".to_string(), "gg".to_string()).ok().unwrap();
    assert_eq!(record.id, "inv9");
    assert_eq!(record.from, "Anon1");
    assert_eq!(record.room, "v1");
    assert_eq!(record.message, "gg");
    assert_eq!(frame, WsPacket::Invoice { id: "inv9".to_string() });
}

#[test]
fn invoice_needs_a_room() {
    let s = Session::new("Anon1".to_string());
    assert!(s.invoice_created("inv9".to_string(), "gg".to_string()).is_err());
}

#[test]
fn chat_reaches_every_other_member_of_the_room() {
    let mut mux = RedisMultiplexed::new();
    let mut a = Session::new("Anon1".to_string());
    let mut b = Session::new("Anon2".to_string());
    let mut c = Session::new("Anon3".to_string());
    let mut queues = Vec::new();
    for s in [&mut a, &mut b] {
        match s.handle(join("v1"), live("v1")) {
            Ok(Effect::Subscribe { room, greeting }) => {
                assert_eq!(greeting, WsPacket::AssignedUsername { username: s.id.clone() });
                queues.push(mux.subscribe(&s.id, &room));
            }
            _ => panic!("join refused"),
        }
    }
    assert!(c.handle(join("v1"), live("v1")).is_ok());
    let publication = match c.handle(say("hi"), None) {
        Ok(Effect::Publish(p)) => p,
        _ => panic!("expected a publication"),
    };
    assert_eq!(publication.room, "v1");
    assert_eq!(
        publication.packet,
        WsPacket::ServerMessage { from: "Anon3".to_string(), message: "hi".to_string(), extra: None }
    );
    let payload = format!("{:?}", publication.packet);
    let out = mux.fan_out(&publication.room, &payload);
    assert_eq!(out.attempted, vec!["Anon1".to_string(), "Anon2".to_string()]);
    assert!(out.failed.is_empty());
    for q in queues.iter_mut() {
        assert_eq!(q.try_recv().unwrap(), payload);
    }
}

#[test]
fn subscriptions_are_counted_per_topic() {
    let mut mux = RedisMultiplexed::new();
    let _a = mux.subscribe("c1", "v1");
    let _b = mux.subscribe("c2", "v1");
    let _c = mux.subscribe("c1", "v2");
    let _d = mux.subscribe("c1", "v1");
    assert_eq!(mux.subscribed_count("v1"), 2);
    assert_eq!(mux.subscribed_count("v2"), 1);
    assert_eq!(mux.subscribed_count("v3"), 0);
}

#[test]
fn removed_consumer_is_not_pushed_to() {
    let mut mux = RedisMultiplexed::new();
    let mut q1 = mux.subscribe("c1", "v1");
    let _q2 = mux.subscribe("c1", "v2");
    let mut q3 = mux.subscribe("c2", "v1");
    mux.remove("c1");
    mux.remove("c1");
    assert_eq!(mux.subscribed_count("v1"), 1);
    assert_eq!(mux.subscribed_count("v2"), 0);
    let out = mux.fan_out("v1", &"m".to_string());
    assert_eq!(out.attempted, vec!["c2".to_string()]);
    assert_eq!(q3.try_recv().unwrap(), "m");
    assert!(q1.try_recv().is_err());
}

#[test]
fn abandoned_queue_is_removed_after_fan_out() {
    let mut mux = RedisMultiplexed::new();
    let q1 = mux.subscribe("c1", "v1");
    let _q1b = mux.subscribe("c1", "v2");
    let mut q2 = mux.subscribe("c2", "v1");
    drop(q1);
    let out = mux.fan_out("v1", &"m".to_string());
    assert_eq!(out.attempted, vec!["c1".to_string(), "c2".to_string()]);
    assert_eq!(out.failed, vec!["c1".to_string()]);
    assert_eq!(q2.try_recv().unwrap(), "m");
    assert_eq!(mux.subscribed_count("v1"), 1);
    assert_eq!(mux.subscribed_count("v2"), 0);
}

#[test]
fn reconcile_follows_demand() {
    let mut mux = RedisMultiplexed::new();
    let _a = mux.subscribe("c1", "v1");
    let _b = mux.subscribe("c2", "v2");
    let mut subscribed = vec!["v2".to_string(), "v3".to_string()];
    let diff = mux.reconcile(&mut subscribed);
    assert_eq!(diff.subscribe, vec!["v1".to_string()]);
    assert_eq!(diff.unsubscribe, vec!["v3".to_string()]);
    let mut sorted = subscribed.clone();
    sorted.sort();
    assert_eq!(sorted, vec!["v1".to_string(), "v2".to_string()]);
    mux.remove("c1");
    mux.remove("c2");
    let diff = mux.reconcile(&mut subscribed);
    assert!(diff.subscribe.is_empty());
    assert_eq!(diff.unsubscribe.len(), 2);
    assert!(subscribed.is_empty());
    let diff = mux.reconcile(&mut subscribed);
    assert!(diff.subscribe.is_empty() && diff.unsubscribe.is_empty());
}
