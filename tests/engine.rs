use flumph::config::AppConfig;
use flumph::connection_manager::ConnectionManager;
use flumph::stream_relay::{Poll, StreamRelay};
use flumph::webrtc_server::{
    decide_offer, is_well_formed_offer, transition, NegotiationError, SessionState, WebRTCServer,
    TransportEvent,
};
use flumph::table::Table;
use flumph::{init, RELAY_CAPACITY};

fn id(s: &str) -> String {
    s.to_string()
}

fn offer() -> String {
    "v=0\r\no=- 4215775240449105457 2 IN IP4 127.0.0.1\r\ns=-\r\nt=0 0\r\n".to_string()
}

fn frame_of(p: &Poll) -> Option<Vec<u8>> {
    match p {
        Poll::Frame(f) => Some(f.clone()),
        _ => None,
    }
}

#[test]
fn offer_then_connect_scenario() {
    let mut e = init();
    let cam = id("cam-1");
    assert_eq!(e.handle_offer(&cam, &offer(), 7), Ok(()));
    assert!(!e.camera_status(cam.clone()).is_streaming);
    assert_eq!(e.status(&cam), SessionState::Negotiating);

    let viewer = e.subscribe(&cam).unwrap();
    // Frames from a session that is still negotiating are not forwarded.
    assert!(!e.forward_frame(&cam, &vec![1u8]));
    assert!(matches!(e.next_frame(&cam, viewer), Poll::Empty));

    e.on_transport_event(&cam, TransportEvent::Connected);
    let st = e.camera_status(cam.clone());
    assert!(st.is_streaming);
    assert_eq!(st.camera_id, "cam-1");

    assert!(e.forward_frame(&cam, &vec![10u8]));
    assert!(e.forward_frame(&cam, &vec![20u8, 21]));
    assert!(e.forward_frame(&cam, &vec![30u8]));
    assert_eq!(frame_of(&e.next_frame(&cam, viewer)), Some(vec![10u8]));
    assert_eq!(frame_of(&e.next_frame(&cam, viewer)), Some(vec![20u8, 21]));
    assert_eq!(frame_of(&e.next_frame(&cam, viewer)), Some(vec![30u8]));
    assert!(matches!(e.next_frame(&cam, viewer), Poll::Empty));
}

#[test]
fn second_offer_for_live_camera_is_duplicate() {
    let mut e = init();
    let cam = id("cam-2");
    assert_eq!(e.handle_offer(&cam, &offer(), 1), Ok(()));
    assert_eq!(
        e.handle_offer(&cam, &offer(), 2),
        Err(NegotiationError::DuplicateSession)
    );
    assert_eq!(e.lookup(&cam), Some(1));
    assert_eq!(e.status(&cam), SessionState::Negotiating);
}

#[test]
fn offer_after_stop_is_accepted_again() {
    let mut e = init();
    let cam = id("cam-3");
    assert_eq!(e.handle_offer(&cam, &offer(), 1), Ok(()));
    e.stop_stream(&cam);
    assert_eq!(e.handle_offer(&cam, &offer(), 2), Ok(()));
    assert_eq!(e.lookup(&cam), Some(2));
}

#[test]
fn malformed_offer_is_refused() {
    let mut e = init();
    let cam = id("cam-4");
    assert_eq!(
        e.handle_offer(&cam, &"garbage".to_string(), 1),
        Err(NegotiationError::MalformedOffer)
    );
    assert_eq!(
        e.handle_offer(&cam, &String::new(), 1),
        Err(NegotiationError::MalformedOffer)
    );
    assert_eq!(
        e.handle_offer(&cam, &"v=x".to_string(), 1),
        Err(NegotiationError::MalformedOffer)
    );
    assert_eq!(e.status(&cam), SessionState::Closed);
    assert_eq!(e.lookup(&cam), None);
    assert!(!e.camera_status(cam).is_streaming);
}

#[test]
fn offer_shape_check() {
    assert!(is_well_formed_offer(&offer()));
    assert!(!is_well_formed_offer(&"v=0".to_string()));
    assert!(!is_well_formed_offer(&"v=x".to_string()));
    assert!(!is_well_formed_offer(&"x=0".to_string()));
    assert!(!is_well_formed_offer(&String::new()));
}

#[test]
fn offer_decision_order() {
    assert_eq!(decide_offer(SessionState::Closed, true), Ok(()));
    assert_eq!(decide_offer(SessionState::Closed, false), Err(NegotiationError::MalformedOffer));
    assert_eq!(decide_offer(SessionState::Active, false), Err(NegotiationError::MalformedOffer));
    assert_eq!(decide_offer(SessionState::Negotiating, true), Err(NegotiationError::DuplicateSession));
    assert_eq!(decide_offer(SessionState::Degraded, true), Err(NegotiationError::DuplicateSession));
}

#[test]
fn viewer_ids_are_not_reused_after_reopen() {
    let mut e = init();
    let cam = id("cam-14");
    e.handle_offer(&cam, &offer(), 1).unwrap();
    let old_viewer = e.subscribe(&cam).unwrap();
    e.stop_stream(&cam);
    e.handle_offer(&cam, &offer(), 2).unwrap();
    e.on_transport_event(&cam, TransportEvent::Connected);
    let new_viewer = e.subscribe(&cam).unwrap();
    assert_ne!(old_viewer, new_viewer);
    assert!(e.forward_frame(&cam, &vec![7u8]));
    // The ended viewer polls late and leaves: the new one is unaffected.
    assert!(matches!(e.next_frame(&cam, old_viewer), Poll::Ended));
    e.unsubscribe(&cam, old_viewer);
    assert_eq!(e.subscriber_count(&cam), 1);
    assert_eq!(frame_of(&e.next_frame(&cam, new_viewer)), Some(vec![7u8]));
}

#[test]
fn orphan_channel_closes_with_last_viewer() {
    let mut e = init();
    let cam = id("unknown");
    let a = e.subscribe(&cam).unwrap();
    let b = e.subscribe(&cam).unwrap();
    e.unsubscribe(&cam, a);
    assert_eq!(e.subscriber_count(&cam), 1);
    e.unsubscribe(&cam, b);
    assert_eq!(e.subscriber_count(&cam), 0);
    assert!(matches!(e.next_frame(&cam, b), Poll::Ended));
    // A channel that a live session owns stays open.
    let live = id("live");
    e.handle_offer(&live, &offer(), 1).unwrap();
    let v = e.subscribe(&live).unwrap();
    e.unsubscribe(&live, v);
    let w = e.subscribe(&live).unwrap();
    assert!(matches!(e.next_frame(&live, w), Poll::Empty));
}

#[test]
fn stop_ends_every_stream() {
    let mut e = init();
    let cam = id("cam-5");
    e.handle_offer(&cam, &offer(), 3).unwrap();
    e.on_transport_event(&cam, TransportEvent::Connected);
    let a = e.subscribe(&cam).unwrap();
    let b = e.subscribe(&cam).unwrap();
    assert!(e.forward_frame(&cam, &vec![1u8]));
    e.stop_stream(&cam);
    assert!(matches!(e.next_frame(&cam, a), Poll::Ended));
    assert!(matches!(e.next_frame(&cam, b), Poll::Ended));
    assert_eq!(e.status(&cam), SessionState::Closed);
    assert!(!e.is_streaming(&cam));
    assert_eq!(e.lookup(&cam), None);
    assert_eq!(e.subscriber_count(&cam), 0);
    // Stopping again, or stopping an unknown camera, is harmless.
    e.stop_stream(&cam);
    e.stop_stream(&id("never-seen"));
    assert_eq!(e.status(&cam), SessionState::Closed);
}

#[test]
fn transport_failure_tears_down() {
    let mut e = init();
    let cam = id("cam-6");
    e.handle_offer(&cam, &offer(), 3).unwrap();
    let a = e.subscribe(&cam).unwrap();
    e.on_transport_event(&cam, TransportEvent::Failed);
    assert!(matches!(e.next_frame(&cam, a), Poll::Ended));
    assert_eq!(e.status(&cam), SessionState::Closed);
    assert_eq!(e.lookup(&cam), None);
    // Events for a camera without a session change nothing.
    e.on_transport_event(&cam, TransportEvent::Connected);
    assert_eq!(e.status(&cam), SessionState::Closed);
}

#[test]
fn degraded_session_recovers() {
    let mut e = init();
    let cam = id("cam-7");
    e.handle_offer(&cam, &offer(), 3).unwrap();
    e.on_transport_event(&cam, TransportEvent::Connected);
    e.on_transport_event(&cam, TransportEvent::Disconnected);
    assert_eq!(e.status(&cam), SessionState::Degraded);
    assert!(!e.is_streaming(&cam));
    assert!(e.subscriber_count(&cam) == 0);
    assert!(e.forward_frame(&cam, &vec![5u8]));
    e.on_transport_event(&cam, TransportEvent::Connected);
    assert_eq!(e.status(&cam), SessionState::Active);
    e.on_transport_event(&cam, TransportEvent::Closed);
    assert_eq!(e.status(&cam), SessionState::Closed);
}

#[test]
fn empty_frame_is_skipped() {
    let mut e = init();
    let cam = id("cam-8");
    e.handle_offer(&cam, &offer(), 3).unwrap();
    e.on_transport_event(&cam, TransportEvent::Connected);
    let v = e.subscribe(&cam).unwrap();
    assert!(!e.forward_frame(&cam, &Vec::new()));
    assert_eq!(e.status(&cam), SessionState::Active);
    assert!(matches!(e.next_frame(&cam, v), Poll::Empty));
}

#[test]
fn registry_tracks_live_sessions_only() {
    let mut e = init();
    let names = ["a", "b", "c", "d"];
    for (i, n) in names.iter().enumerate() {
        e.handle_offer(&id(n), &offer(), i as u64).unwrap();
    }
    e.stop_stream(&id("b"));
    e.on_transport_event(&id("c"), TransportEvent::Failed);
    e.on_transport_event(&id("d"), TransportEvent::Connected);
    assert_eq!(e.lookup(&id("a")), Some(0));
    assert_eq!(e.lookup(&id("b")), None);
    assert_eq!(e.lookup(&id("c")), None);
    assert_eq!(e.lookup(&id("d")), Some(3));
    for n in names.iter() {
        let live = e.status(&id(n)) != SessionState::Closed;
        assert_eq!(e.lookup(&id(n)).is_some(), live);
    }
}

#[test]
fn slow_subscriber_does_not_hold_back_fast_one() {
    let mut hub = StreamRelay::new(2);
    let cam = id("cam-9");
    let slow = hub.subscribe(&cam).unwrap();
    let fast = hub.subscribe(&cam).unwrap();
    assert_ne!(slow, fast);
    for k in 0u8..5 {
        hub.relay_frame(&cam, &vec![k]);
        assert_eq!(frame_of(&hub.next_frame(&cam, fast)), Some(vec![k]));
    }
    // The slow one kept the first two and lost the rest.
    assert_eq!(frame_of(&hub.next_frame(&cam, slow)), Some(vec![0u8]));
    assert_eq!(frame_of(&hub.next_frame(&cam, slow)), Some(vec![1u8]));
    assert!(matches!(hub.next_frame(&cam, slow), Poll::Empty));
    hub.relay_frame(&cam, &vec![9u8]);
    assert_eq!(frame_of(&hub.next_frame(&cam, slow)), Some(vec![9u8]));
}

#[test]
fn publish_without_subscribers_is_noop() {
    let mut hub = StreamRelay::new(RELAY_CAPACITY);
    let cam = id("cam-10");
    for k in 0u8..50 {
        hub.relay_frame(&cam, &vec![k]);
    }
    assert!(!hub.is_open(&cam));
    hub.add_stream(&cam);
    for k in 0u8..50 {
        hub.relay_frame(&cam, &vec![k]);
    }
    assert!(hub.is_open(&cam));
    assert_eq!(hub.subscriber_count(&cam), 0);
    let v = hub.subscribe(&cam).unwrap();
    assert!(matches!(hub.next_frame(&cam, v), Poll::Empty));
}

#[test]
fn subscriber_sees_only_later_frames() {
    let mut hub = StreamRelay::new(4);
    let cam = id("cam-11");
    hub.add_stream(&cam);
    hub.relay_frame(&cam, &vec![1u8]);
    let v = hub.subscribe(&cam).unwrap();
    hub.relay_frame(&cam, &vec![2u8]);
    assert_eq!(frame_of(&hub.next_frame(&cam, v)), Some(vec![2u8]));
    assert!(matches!(hub.next_frame(&cam, v), Poll::Empty));
}

#[test]
fn unsubscribe_keeps_count_exact() {
    let mut hub = StreamRelay::new(4);
    let cam = id("cam-12");
    let a = hub.subscribe(&cam).unwrap();
    let b = hub.subscribe(&cam).unwrap();
    assert_eq!(hub.subscriber_count(&cam), 2);
    hub.unsubscribe(&cam, a);
    assert_eq!(hub.subscriber_count(&cam), 1);
    assert!(matches!(hub.next_frame(&cam, a), Poll::Ended));
    hub.relay_frame(&cam, &vec![3u8]);
    assert_eq!(frame_of(&hub.next_frame(&cam, b)), Some(vec![3u8]));
    hub.unsubscribe(&cam, a);
    assert_eq!(hub.subscriber_count(&cam), 1);
    hub.close(&cam);
    assert!(matches!(hub.next_frame(&cam, b), Poll::Ended));
    assert_eq!(hub.capacity(), 4);
}

#[test]
fn transition_table() {
    assert_eq!(transition(SessionState::Negotiating, TransportEvent::Connected), SessionState::Active);
    assert_eq!(transition(SessionState::Negotiating, TransportEvent::Disconnected), SessionState::Negotiating);
    assert_eq!(transition(SessionState::Negotiating, TransportEvent::Failed), SessionState::Closed);
    assert_eq!(transition(SessionState::Active, TransportEvent::Disconnected), SessionState::Degraded);
    assert_eq!(transition(SessionState::Active, TransportEvent::Connected), SessionState::Active);
    assert_eq!(transition(SessionState::Active, TransportEvent::Closed), SessionState::Closed);
    assert_eq!(transition(SessionState::Degraded, TransportEvent::Connected), SessionState::Active);
    assert_eq!(transition(SessionState::Degraded, TransportEvent::Failed), SessionState::Closed);
    assert_eq!(transition(SessionState::Closed, TransportEvent::Connected), SessionState::Closed);
}

#[test]
fn session_registry_operations() {
    let mut r = ConnectionManager::new();
    assert_eq!(r.get_connection("x"), None);
    r.add_connection(id("x"), 1);
    r.add_connection(id("y"), 2);
    r.add_connection(id("x"), 3);
    assert_eq!(r.get_connection("x"), Some(3));
    assert_eq!(r.get_connection("y"), Some(2));
    r.remove_connection("x");
    assert!(!r.contains("x"));
    assert!(r.contains("y"));
    r.remove_connection("x");
    assert_eq!(r.get_connection("y"), Some(2));
}

#[test]
fn table_operations() {
    let mut t: Table<u32> = Table::new();
    t.insert(id("k"), 1);
    t.insert(id("j"), 2);
    assert_eq!(t.get(&id("k")), Some(&1));
    t.insert(id("k"), 5);
    assert_eq!(t.get(&id("k")), Some(&5));
    assert_eq!(t.remove(&id("k")), Some(5));
    assert_eq!(t.remove(&id("k")), None);
    assert!(t.contains_key(&id("j")));
}

#[test]
fn default_app_config() {
    let c = AppConfig::default();
    assert_eq!(c.server_ip, "127.0.0.1");
    assert_eq!(c.server_port, 8080);
    assert_eq!(c.camera_index, 0);
    assert_eq!(c.camera_resolution_width, 640);
    assert_eq!(c.camera_resolution_height, 480);
    assert_eq!(c.camera_framerate, 30);
    assert_eq!(c.encoder_bitrate_kbps, 500);
    assert_eq!(c.frame_interval_ms(), 33);
}

#[test]
fn frame_interval_follows_framerate() {
    let mut c = AppConfig::default();
    c.camera_framerate = 1;
    assert_eq!(c.frame_interval_ms(), 1000);
    c.camera_framerate = 60;
    assert_eq!(c.frame_interval_ms(), 16);
    c.camera_framerate = 2000;
    assert_eq!(c.frame_interval_ms(), 0);
}

#[test]
fn engine_starts_empty() {
    let mut e = WebRTCServer::new(3);
    assert_eq!(e.status(&id("any")), SessionState::Closed);
    assert_eq!(e.subscriber_count(&id("any")), 0);
    e.publish(&id("any"), &vec![1u8]);
    let v = e.subscribe(&id("any")).unwrap();
    e.publish(&id("any"), &vec![2u8]);
    assert_eq!(frame_of(&e.next_frame(&id("any"), v)), Some(vec![2u8]));
    e.unsubscribe(&id("any"), v);
    assert_eq!(e.subscriber_count(&id("any")), 0);
}
