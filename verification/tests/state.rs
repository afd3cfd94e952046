use imglaze::cooldown::{CooldownTracker, COOLDOWN_NANOS};
use imglaze::registry::SessionRegistry;
use imglaze::ws::{ConnectAction, HeartbeatAction, WsAction, WsFrame, WsResponse, WsSession, CLIENT_TIMEOUT_NANOS, HEARTBEAT_INTERVAL_NANOS};

#[test]
fn cooldown_blocks_within_four_seconds() {
    let mut t = CooldownTracker::new();
    assert!(t.check_update_cooldown("chan", 1_000));
    assert!(!t.check_update_cooldown("chan", 1_000 + COOLDOWN_NANOS - 1));
    assert!(t.check_update_cooldown("chan", 1_000 + COOLDOWN_NANOS));
    assert!(!t.check_update_cooldown("chan", 1_000 + COOLDOWN_NANOS + 5));
}

#[test]
fn cooldown_is_per_channel_and_forgotten_on_remove() {
    let mut t = CooldownTracker::new();
    assert!(t.check_update_cooldown("a", 0));
    assert!(t.check_update_cooldown("b", 1));
    assert!(!t.check_update_cooldown("a", 2));
    t.remove("a");
    assert!(t.check_update_cooldown("a", 3));
    assert!(!t.check_update_cooldown("b", 4));
}

#[test]
fn cooldown_saturates_when_clock_goes_back() {
    let mut t = CooldownTracker::new();
    assert!(t.check_update_cooldown("a", 10 * COOLDOWN_NANOS));
    assert!(!t.check_update_cooldown("a", 0));
}

#[test]
fn registry_connect_assigns_increasing_ids() {
    let mut r: SessionRegistry<&str> = SessionRegistry::new();
    assert_eq!(r.connect(7, "s0"), 0);
    assert_eq!(r.connect(7, "s1"), 1);
    assert_eq!(r.connect(8, "s2"), 2);
    assert_eq!(r.next_session_id(), 3);
    let mut m = r.members_of(7);
    m.sort();
    assert_eq!(m, vec![0, 1]);
    assert_eq!(r.members_of(8), vec![2]);
    assert_eq!(r.members_of(9), Vec::<usize>::new());
    assert_eq!(r.session(1), Some(&"s1"));
}

#[test]
fn registry_disconnect_removes_session_everywhere() {
    let mut r: SessionRegistry<&str> = SessionRegistry::new();
    let a = r.connect(1, "a");
    let b = r.connect(1, "b");
    r.disconnect(a);
    assert_eq!(r.members_of(1), vec![b]);
    assert_eq!(r.session(a), None);
    r.disconnect(b);
    assert_eq!(r.members_of(1), Vec::<usize>::new());
    r.disconnect(42);
    assert_eq!(r.session(b), None);
    r.disconnect(b);
    assert_eq!(r.members_of(1), Vec::<usize>::new());
    assert_eq!(r.next_session_id(), 2);
}

#[test]
fn registry_delete_overlay_returns_its_sessions() {
    let mut r: SessionRegistry<String> = SessionRegistry::new();
    r.connect(1, "a".to_string());
    r.connect(2, "b".to_string());
    r.connect(1, "c".to_string());
    let mut removed = r.delete_overlay(1);
    removed.sort();
    assert_eq!(removed, vec![(0, "a".to_string()), (2, "c".to_string())]);
    assert_eq!(r.members_of(1), Vec::<usize>::new());
    assert_eq!(r.session(0), None);
    assert_eq!(r.session(1), Some(&"b".to_string()));
    assert_eq!(r.delete_overlay(1), Vec::new());
    assert_eq!(r.connect(1, "d".to_string()), 3);
}

#[test]
fn ws_heartbeat_pings_then_expires() {
    let mut s = WsSession::new(5, None, 0);
    assert!(matches!(s.connected(Some(9)), ConnectAction::Run(None)));
    match s.heartbeat(HEARTBEAT_INTERVAL_NANOS) {
        HeartbeatAction::SendPing(t) => assert_eq!(t, "{\"type\":\"Ping\"}"),
        _ => panic!("expected a ping"),
    }
    match s.heartbeat(CLIENT_TIMEOUT_NANOS) {
        HeartbeatAction::SendPing(_) => {}
        _ => panic!("exactly the timeout is not yet expired"),
    }
    match s.heartbeat(CLIENT_TIMEOUT_NANOS + 1) {
        HeartbeatAction::Expire(d) => assert_eq!(d.0, 9),
        _ => panic!("expected expiry"),
    }
}

#[test]
fn ws_frames() {
    let mut s = WsSession::new(5, None, 0);
    assert!(matches!(s.on_frame(WsFrame::Text(Some(WsResponse::Pong)), 100), WsAction::Nothing));
    assert_eq!(s.last_hb, 100);
    match s.on_frame(WsFrame::Text(Some(WsResponse::Ping)), 200) {
        WsAction::SendText(t) => assert_eq!(t, "{\"type\":\"Pong\"}"),
        _ => panic!("expected a pong text"),
    }
    assert_eq!(s.last_hb, 200);
    assert!(matches!(s.on_frame(WsFrame::Text(None), 300), WsAction::Nothing));
    assert_eq!(s.last_hb, 200);
    match s.on_frame(WsFrame::Ping(vec![1, 2]), 400) {
        WsAction::Pong(p) => assert_eq!(p, vec![1, 2]),
        _ => panic!("expected a pong frame"),
    }
    assert!(matches!(s.on_frame(WsFrame::Failed, 0), WsAction::Stop));
    assert!(matches!(s.on_frame(WsFrame::Continuation, 0), WsAction::Stop));
    assert!(matches!(s.on_frame(WsFrame::Close, 0), WsAction::CloseAndStop));
    assert!(matches!(s.on_frame(WsFrame::Other, 0), WsAction::Nothing));
}

#[test]
fn ws_connection_refused_stops() {
    let mut s = WsSession::new(1, None, 0);
    assert!(matches!(s.connected(None), ConnectAction::Stop));
    assert_eq!(s.client_id, 0);
    assert_eq!(s.stopping().0, 0);
}

#[test]
fn ws_client_answering_each_ping_stays() {
    let mut s = WsSession::new(3, None, 0);
    let mut tick = 0u64;
    for _ in 0..5 {
        tick += HEARTBEAT_INTERVAL_NANOS;
        match s.heartbeat(tick) {
            HeartbeatAction::SendPing(_) => {}
            HeartbeatAction::Expire(_) => panic!("an answering client must not expire"),
        }
        s.on_frame(WsFrame::Text(Some(WsResponse::Pong)), tick + 1_000);
    }
    match s.heartbeat(tick + 1_000 + CLIENT_TIMEOUT_NANOS + 1) {
        HeartbeatAction::Expire(_) => {}
        _ => panic!("a silent client expires"),
    }
}

#[test]
fn ws_reload_restores_saved_image() {
    let mut s = WsSession::new(4, Some("https://x/a\"b.png".to_string()), 0);
    match s.connected(Some(2)) {
        ConnectAction::Run(Some(t)) => assert_eq!(t, "{\"type\":\"Image\",\"content\":\"https://x/a\\\"b.png\"}"),
        _ => panic!("expected the saved image first"),
    }
    assert_eq!(s.client_id, 2);
    let mut refused = WsSession::new(4, Some("https://x/a.png".to_string()), 0);
    assert!(matches!(refused.connected(None), ConnectAction::Stop));
}

#[test]
fn registry_close_after_reset_drops_old_sockets() {
    let mut r: SessionRegistry<String> = SessionRegistry::new();
    let old_a = r.connect(7, "a".to_string());
    let other = r.connect(8, "b".to_string());
    let removed = r.delete_overlay(7);
    assert_eq!(removed, vec![(old_a, "a".to_string())]);
    assert_eq!(r.members_of(7), Vec::<usize>::new());
    assert_eq!(r.session(old_a), None);
    let fresh = r.connect(7, "c".to_string());
    assert!(fresh > old_a);
    assert_eq!(r.members_of(7), vec![fresh]);
    assert_eq!(r.members_of(8), vec![other]);
}

#[test]
fn ws_silent_client_dropped_within_130_seconds() {
    let second = 1_000_000_000u64;
    let mut s = WsSession::new(6, None, 0);
    assert!(matches!(s.connected(Some(1)), ConnectAction::Run(None)));
    s.on_frame(WsFrame::Text(Some(WsResponse::Pong)), 50 * second);
    assert!(matches!(s.heartbeat(60 * second), HeartbeatAction::SendPing(_)));
    assert!(matches!(s.heartbeat(120 * second), HeartbeatAction::SendPing(_)));
    match s.heartbeat(180 * second) {
        HeartbeatAction::Expire(d) => assert_eq!(d.0, 1),
        _ => panic!("the tick 130 s after the last heartbeat drops the client"),
    }
}

#[test]
fn registry_open_sessions_belong_to_an_overlay() {
    let mut r: SessionRegistry<String> = SessionRegistry::new();
    let a = r.connect(1, "a".to_string());
    let b = r.connect(2, "b".to_string());
    let c = r.connect(1, "c".to_string());
    r.disconnect(a);
    r.delete_overlay(2);
    for id in [a, b, c] {
        let joined = [1, 2].iter().any(|o| r.members_of(*o).contains(&id));
        assert_eq!(r.session(id).is_some(), joined);
    }
    assert_eq!(r.session(c), Some(&"c".to_string()));
}

#[test]
fn registry_command_targets_are_the_overlay_sessions() {
    let mut r: SessionRegistry<String> = SessionRegistry::new();
    let a = r.connect(1, "a".to_string());
    let _b = r.connect(2, "b".to_string());
    let c = r.connect(1, "c".to_string());
    let mut targets: Vec<(usize, String)> = r.command_targets(1).into_iter().map(|(id, s)| (id, s.clone())).collect();
    targets.sort();
    assert_eq!(targets, vec![(a, "a".to_string()), (c, "c".to_string())]);
    assert!(r.command_targets(3).is_empty());
    r.disconnect(a);
    let ids: Vec<usize> = r.command_targets(1).into_iter().map(|(id, _)| id).collect();
    assert_eq!(ids, vec![c]);
}

#[test]
fn cooldown_window_over_a_run() {
    let mut t = CooldownTracker::new();
    let s = 1_000_000_000u64;
    let mut accepted = Vec::new();
    for at in [0, s, 3 * s, 4 * s, 5 * s, 7 * s, 8 * s] {
        if t.check_update_cooldown("chan", at) {
            accepted.push(at);
        }
    }
    assert_eq!(accepted, vec![0, 4 * s, 8 * s]);
    t.remove("chan");
    assert!(t.check_update_cooldown("chan", 8 * s + 1));
}
