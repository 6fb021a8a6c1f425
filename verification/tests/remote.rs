use eggs::remote::{
    build_status, build_ws_url, can_leave_room, chat_room_code, config_signature,
    default_remote_config, default_server_url, handle_incoming, is_permanent_error,
    is_permanent_text, merge_peer_update, normalize_remote_config, peer_from_message,
    request_leave_room, take_leave_request, update_remote_config, ws_base_url, ws_query,
    ActorCommand, ActorPhase, IncomingMessage, JsonText, Outgoing, PeerMessage, PeerSnapshot,
    PeerTable, RemoteActor, RemoteConfig, RemoteEdit, RemoteRuntimeSnapshot, SpriteFields,
    UrlParts,
};
use eggs::upload::UploadError;

fn s(x: &str) -> String {
    x.to_string()
}

fn cfg(url: &str, enabled: bool, mode: &str, room: &str) -> RemoteConfig {
    RemoteConfig {
        server_url: s(url),
        enabled,
        mode: s(mode),
        room: s(room),
        room_limit: 5,
        session_nonce: 0,
    }
}

fn text(x: &str) -> JsonText {
    JsonText::Text(s(x))
}

fn sprite(name: &str, url: &str, json: &str) -> SpriteFields {
    SpriteFields {
        name: text(name),
        sprite_url: text(url),
        png_url: JsonText::Absent,
        json_url: text(json),
        config_url: JsonText::Absent,
    }
}

fn peer_msg(id: &str, state: &str, sp: Option<SpriteFields>) -> PeerMessage {
    PeerMessage {
        peer_id: text(id),
        device_id: JsonText::Absent,
        state: if state.is_empty() { JsonText::Absent } else { text(state) },
        action: JsonText::Absent,
        sprite: sp,
    }
}

fn incoming(kind: &str, peer: PeerMessage, peers: Option<Vec<PeerMessage>>) -> IncomingMessage {
    IncomingMessage { msg_type: text(kind), peer, peers }
}

#[test]
fn config_is_cleaned_up() {
    let n = normalize_remote_config(cfg(" http://srv:1/// ", true, "weird", "  AB "), s("http://d"));
    assert_eq!(n, cfg("http://srv:1///", true, "random", "AB"));
    let n = normalize_remote_config(cfg(" http://srv:1/// ", true, "room", ""), s("http://d"));
    assert_eq!(n.server_url, "http://srv:1///");
    let n = normalize_remote_config(cfg("http://srv:1/", true, "room", ""), s("http://d"));
    assert_eq!(n.server_url, "http://srv:1");
    let n = normalize_remote_config(cfg("///", false, "room", ""), s("http://d"));
    assert_eq!(n, cfg("http://d", false, "random", ""));
    assert_eq!(default_server_url(None), "http://localhost:8787");
    assert_eq!(default_server_url(Some(s("https://x"))), "https://x");
    let d = default_remote_config(s("http://localhost:8787"));
    assert_eq!(d, cfg("http://localhost:8787", false, "random", ""));
}

#[test]
fn edits_touch_only_their_fields() {
    let base = cfg("http://s", false, "room", "AB");
    assert_eq!(update_remote_config(base.clone(), RemoteEdit::UseRandom), cfg("http://s", true, "random", "AB"));
    assert_eq!(update_remote_config(base.clone(), RemoteEdit::UseRoom), cfg("http://s", true, "room", "AB"));
    assert_eq!(update_remote_config(base.clone(), RemoteEdit::Toggle), cfg("http://s", true, "room", "AB"));
    assert_eq!(update_remote_config(base.clone(), RemoteEdit::JoinRoom(s("XY"), None)), cfg("http://s", true, "room", "XY"));
    assert_eq!(update_remote_config(base.clone(), RemoteEdit::SetServer(s("http://t"))), cfg("http://t", false, "room", "AB"));
    assert_eq!(update_remote_config(base.clone(), RemoteEdit::Resume), cfg("http://s", true, "room", "AB"));
    let empty_room = cfg("http://s", false, "room", "");
    assert_eq!(update_remote_config(empty_room, RemoteEdit::Resume), cfg("http://s", true, "random", ""));
    assert_eq!(update_remote_config(base.clone(), RemoteEdit::Enable).enabled, true);
    assert_eq!(update_remote_config(cfg("http://s", true, "random", ""), RemoteEdit::Disable).enabled, false);
}

#[test]
fn signature_ignores_the_pet_and_disabled_details() {
    assert_eq!(config_signature(&cfg("http://a", false, "room", "X")), "off");
    assert_eq!(config_signature(&cfg("http://b", false, "random", "")), "off");
    assert_eq!(config_signature(&cfg("http://a", true, "room", "X")), "on|http://a|room|0|X");
    assert_ne!(
        config_signature(&cfg("http://a", true, "room", "X")),
        config_signature(&cfg("http://a", true, "room", "Y"))
    );
}

#[test]
fn permanent_errors_are_recognised() {
    assert!(is_permanent_error("HTTP error: 404 Not Found"));
    assert!(is_permanent_error("Unknown sprite for device"));
    assert!(!is_permanent_error("connection refused"));
    assert!(!is_permanent_error(""));
    assert!(is_permanent_text("room code is required"));
    assert!(!is_permanent_text("HTTP ERROR: 400"));
}

#[test]
fn status_trims_the_error() {
    let st = build_status(&cfg("http://a", true, "room", "X"), "cat", false, true, "  boom \n");
    assert_eq!(st.error, "boom");
    assert_eq!(st.sprite, "cat");
    assert!(st.enabled && !st.connected && st.reconnecting);
}

#[test]
fn leave_requests_are_taken_once() {
    let mut snap = RemoteRuntimeSnapshot::new();
    assert!(!can_leave_room(&snap));
    snap.set_connected(true);
    assert!(!can_leave_room(&snap));
    snap.set_peer_count(2);
    assert!(can_leave_room(&snap));
    request_leave_room(&mut snap);
    assert!(take_leave_request(&mut snap));
    assert!(!take_leave_request(&mut snap));
    assert!(snap.connected);
}

#[test]
fn websocket_url_from_server_url() {
    let url = build_ws_url(&cfg("https://example.com/base/", true, "room", "AB CD"), "dev1", "buddy").unwrap();
    assert_eq!(url, "wss://example.com/base/ws?device_id=dev1&mode=room&room=AB+CD&sprite=buddy");
    let url = build_ws_url(&cfg("http://localhost:8787", true, "random", ""), "d", "s").unwrap();
    assert_eq!(url, "ws://localhost:8787/ws?device_id=d&mode=random&room=&sprite=s");
    assert_eq!(
        build_ws_url(&cfg("unix:/run/foo.socket", true, "random", ""), "d", "s"),
        Err(s("server_url is missing host"))
    );
    assert!(build_ws_url(&cfg("not a url", true, "random", ""), "d", "s").is_err());
    let parts = UrlParts { scheme: s("https"), host: Some(s("h")), port: Some(9000), path: s("/p//"), segments: None };
    assert_eq!(ws_base_url(&parts), Ok(s("wss://h:9000/p/ws")));
    let q = ws_query(&cfg("x", true, "room", "R"), "dev", "pet");
    assert_eq!(q[2], (s("room"), s("R")));
}

#[test]
fn peer_messages_fall_back_to_older_fields() {
    let msg = PeerMessage {
        peer_id: text("p1"),
        device_id: JsonText::NotText,
        state: JsonText::Absent,
        action: text("waving"),
        sprite: Some(SpriteFields {
            name: text("cat"),
            sprite_url: JsonText::Absent,
            png_url: text("http://h/a.png"),
            json_url: text("http://h/a.json"),
            config_url: text("http://h/c.json"),
        }),
    };
    let p = peer_from_message(&msg).unwrap();
    assert_eq!(p.device_id, "");
    assert_eq!(p.state, "waving");
    assert_eq!(p.sprite_url, "http://h/a.png");
    assert_eq!(p.config_url, Some(s("http://h/c.json")));
    assert!(peer_from_message(&peer_msg("", "idle", None)).is_none());
    let not_text_state = PeerMessage { state: JsonText::NotText, ..msg.clone() };
    assert_eq!(peer_from_message(&not_text_state).unwrap().state, "");
}

fn snapshot(id: &str, state: &str, sprite: &str) -> PeerSnapshot {
    PeerSnapshot {
        peer_id: s(id),
        device_id: s("dev"),
        state: s(state),
        sprite: s(sprite),
        sprite_url: s("http://h/x.png"),
        json_url: s("http://h/x.json"),
        config_url: None,
    }
}

#[test]
fn updates_keep_what_they_do_not_say() {
    let prev = snapshot("p1", "idle", "cat");
    let merged = merge_peer_update(Some(&prev), &peer_msg("p1", "jumping", None)).unwrap();
    assert_eq!(merged.state, "jumping");
    assert_eq!(merged.sprite, "cat");
    assert_eq!(merged.device_id, "dev");
    let kept = merge_peer_update(Some(&prev), &peer_msg("", "", None)).unwrap();
    assert_eq!(kept.state, "idle");
    assert!(merge_peer_update(None, &peer_msg("", "", None)).is_none());
}

#[test]
fn table_follows_server_messages() {
    let mut t = PeerTable::new();
    let snap = incoming(
        "room_snapshot",
        peer_msg("", "", None),
        Some(vec![
            peer_msg("b", "idle", Some(sprite("dog", "u", "j"))),
            peer_msg("a", "idle", None),
            peer_msg("", "idle", None),
        ]),
    );
    assert!(handle_incoming(&mut t, snap));
    let ids: Vec<String> = t.to_list().iter().map(|p| p.peer_id.clone()).collect();
    assert_eq!(ids, vec![s("a"), s("b")]);
    assert!(handle_incoming(&mut t, incoming("peer_state", peer_msg("b", "waving", None), None)));
    assert_eq!(t.get("b").unwrap().state, "waving");
    assert_eq!(t.get("b").unwrap().sprite, "dog");
    assert!(handle_incoming(&mut t, incoming("peer_joined", peer_msg("c", "", None), None)));
    assert_eq!(t.len(), 3);
    assert!(handle_incoming(&mut t, incoming("peer_left", peer_msg("a", "", None), None)));
    assert!(!handle_incoming(&mut t, incoming("peer_left", peer_msg("a", "", None), None)));
    assert!(!handle_incoming(&mut t, incoming("chat", peer_msg("b", "x", None), None)));
    let ids: Vec<String> = t.to_list().iter().map(|p| p.peer_id.clone()).collect();
    assert_eq!(ids, vec![s("b"), s("c")]);
    assert!(handle_incoming(&mut t, incoming("room_snapshot", peer_msg("", "", None), None)));
    assert_eq!(t.len(), 0);
}

#[test]
fn chat_room_code_only_in_room_mode() {
    assert_eq!(chat_room_code(&cfg("x", true, "room", " AB ")), Some(s("AB")));
    assert_eq!(chat_room_code(&cfg("x", true, "room", "  ")), None);
    assert_eq!(chat_room_code(&cfg("x", true, "random", "AB")), None);
}

fn started_actor() -> RemoteActor {
    RemoteActor::new(Some((s("cat"), s("idle"))))
}

#[test]
fn actor_connects_after_upload() {
    let mut a = started_actor();
    let c = cfg("http://localhost:8787", true, "random", "");
    let out = a.on_tick(false, c.clone(), Some((s("cat"), s("idle"))), false, 0);
    assert!(matches!(out.command, ActorCommand::ReadDeviceId));
    assert!(out.peers_changed);
    assert_eq!(out.statuses.len(), 1);
    assert!(out.statuses[0].reconnecting && !out.statuses[0].connected);
    let out = a.on_device_id(Ok(s("dev1")));
    match out.command {
        ActorCommand::Upload { server_url, device_id, sprite } => {
            assert_eq!((server_url.as_str(), device_id.as_str(), sprite.as_str()), ("http://localhost:8787", "dev1", "cat"));
        }
        _ => panic!("expected an upload"),
    }
    let out = a.on_uploaded(Ok(()), 0);
    match &out.command {
        ActorCommand::Connect(url) => assert_eq!(url, "ws://localhost:8787/ws?device_id=dev1&mode=random&room=&sprite=cat"),
        _ => panic!("expected a connect"),
    }
    let out = a.on_connected(Ok(()), 1000);
    assert!(out.statuses[0].connected);
    match &out.command {
        ActorCommand::Send(Outgoing::Sprite { sprite, state }) => assert_eq!((sprite.as_str(), state.as_str()), ("cat", "idle")),
        _ => panic!("expected the pet announce"),
    }
    let out = a.on_sent(Ok(()), 1000);
    assert!(matches!(out.command, ActorCommand::Receive));
    assert_eq!(a.next_heartbeat_ms, Some(21000));
    assert!(out.statuses.is_empty());
    let out = a.on_received(None);
    assert!(matches!(out.command, ActorCommand::Tick));
    assert_eq!(a.phase, ActorPhase::Ready);
    let out = a.on_tick(false, c.clone(), Some((s("cat"), s("idle"))), false, 5000);
    assert!(matches!(out.command, ActorCommand::Receive));
    let out = a.on_received(None);
    assert!(matches!(out.command, ActorCommand::Tick));
    let out = a.on_tick(false, c, Some((s("cat"), s("idle"))), false, 21000);
    assert!(matches!(out.command, ActorCommand::Send(Outgoing::State { .. })));
}

#[test]
fn actor_backs_off_and_gives_up_on_permanent_errors() {
    let mut a = started_actor();
    let c = cfg("http://localhost:8787", true, "random", "");
    a.on_tick(false, c.clone(), None, false, 0);
    a.on_device_id(Ok(s("dev")));
    let out = a.on_uploaded(Err(UploadError::Http(s("timeout"))), 0);
    assert!(matches!(out.command, ActorCommand::Sleep(2000)));
    assert_eq!(a.reconnect_delay_ms, 4000);
    assert_eq!(out.statuses[0].error, "pet upload failed: http error: timeout");
    assert!(out.statuses[0].reconnecting);
    a.on_tick(false, c.clone(), None, false, 0);
    a.on_device_id(Ok(s("dev")));
    a.on_uploaded(Ok(()), 0);
    let out = a.on_connected(Err(s("HTTP error: 403 Forbidden")), 0);
    assert!(matches!(out.command, ActorCommand::Sleep(60000)));
    assert_eq!(a.reconnect_delay_ms, 4000);
    assert!(!out.statuses[0].reconnecting);
}

#[test]
fn actor_without_pet_or_client_waits() {
    let mut a = RemoteActor::new(None);
    let c = cfg("http://localhost:8787", true, "random", "");
    a.on_tick(false, c.clone(), Some((s(""), s("idle"))), false, 0);
    let out = a.on_device_id(Ok(s("dev")));
    assert!(matches!(out.command, ActorCommand::Sleep(200)));
    assert_eq!(out.statuses[0].error, "no pet configured (run: eggs pet <id>)");
    a.on_tick(false, c, Some((s(""), s("idle"))), false, 0);
    let out = a.on_device_id(Err(s("denied")));
    assert!(matches!(out.command, ActorCommand::Sleep(2000)));
    assert_eq!(out.statuses[0].error, "client.json: denied");
}

#[test]
fn actor_disconnects_and_stops() {
    let mut a = started_actor();
    let c = cfg("http://localhost:8787", true, "random", "");
    a.on_tick(false, c.clone(), None, false, 0);
    a.on_device_id(Ok(s("dev")));
    a.on_uploaded(Ok(()), 0);
    a.on_connected(Ok(()), 0);
    a.on_sent(Ok(()), 0);
    let msg = incoming("peer_joined", peer_msg("p", "idle", None), None);
    let out = a.on_received(Some(Ok(msg)));
    assert!(out.peers_changed);
    assert_eq!(a.peers.len(), 1);
    a.on_tick(false, c.clone(), None, false, 0);
    let out = a.on_received(Some(Err(s("websocket stream ended"))));
    assert!(out.close_session && out.peers_changed);
    assert_eq!(a.peers.len(), 0);
    assert!(matches!(out.command, ActorCommand::Sleep(2000)));
    let out = a.on_tick(true, c, None, false, 0);
    assert!(matches!(out.command, ActorCommand::Stop));
    assert!(!out.close_session);
}

#[test]
fn actor_leaves_the_room_on_request_and_sleeps_when_disabled() {
    let mut a = started_actor();
    let c = cfg("http://localhost:8787", true, "room", "AB");
    a.on_tick(false, c.clone(), None, false, 0);
    a.on_device_id(Ok(s("dev")));
    a.on_uploaded(Ok(()), 0);
    a.on_connected(Ok(()), 0);
    a.on_sent(Ok(()), 0);
    a.on_received(None);
    let out = a.on_tick(false, c.clone(), None, true, 0);
    assert!(out.close_session && out.peers_changed);
    assert!(matches!(out.command, ActorCommand::ReadDeviceId));
    let mut b = started_actor();
    let off = cfg("http://localhost:8787", false, "room", "AB");
    let out = b.on_tick(false, off.clone(), None, true, 0);
    assert!(matches!(out.command, ActorCommand::Sleep(200)));
    assert_eq!(out.statuses.len(), 1);
    let out = b.on_tick(false, off, None, false, 0);
    assert!(out.statuses.is_empty());
}

#[test]
fn normalizing_remote_config_twice_changes_nothing() {
    let d = String::from("http://localhost:8787");
    let raw = RemoteConfig {
        server_url: String::from(" https://eggs.example// "),
        enabled: true,
        mode: String::from("duo"),
        room: String::from("  ab12 "),
        room_limit: 5,
        session_nonce: 0,
    };
    let once = normalize_remote_config(raw, d.clone());
    assert_eq!(once.server_url, "https://eggs.example//");
    let raw2 = RemoteConfig {
        server_url: String::from("https://eggs.example//"),
        enabled: true,
        mode: String::from("duo"),
        room: String::from("  ab12 "),
        room_limit: 5,
        session_nonce: 0,
    };
    let once2 = normalize_remote_config(raw2, d.clone());
    assert_eq!(once2.server_url, "https://eggs.example");
    assert_eq!(once2.mode, "random");
    assert_eq!(once2.room, "ab12");
    let twice2 = normalize_remote_config(once2.clone(), d.clone());
    assert_eq!(twice2, once2);
    // A URL that still ends with a slash once trimmed loses it on the
    // second pass.
    let twice = normalize_remote_config(once.clone(), d);
    assert_eq!(twice.server_url, "https://eggs.example");
}

#[test]
fn room_mode_without_a_code_falls_back_to_random() {
    let n = normalize_remote_config(cfg("http://s", true, "room", "   "), s("http://d"));
    assert_eq!(n.mode, "random");
    assert_eq!(n.room, "");
    let n = normalize_remote_config(cfg("http://s", true, "room", " Q7 "), s("http://d"));
    assert_eq!(n.mode, "room");
    assert_eq!(n.room, "Q7");
}

#[test]
fn joining_a_room_saves_its_cap() {
    let base = cfg("http://s", false, "random", "");
    let j = update_remote_config(base.clone(), RemoteEdit::JoinRoom(s("K9"), Some(3)));
    assert_eq!(j.room_limit, 3);
    assert_eq!(j.room, "K9");
    assert_eq!(j.mode, "room");
    assert!(j.enabled);
    let j = update_remote_config(base, RemoteEdit::JoinRoom(s("K9"), None));
    assert_eq!(j.room_limit, 5);
    assert_eq!(default_remote_config(s("http://d")).room_limit, 5);
    assert_eq!(default_remote_config(s("http://d")).session_nonce, 0);
}

#[test]
fn leaving_bumps_the_nonce_and_forces_a_reconnect() {
    let base = cfg("http://s", true, "room", "AB");
    let left = update_remote_config(base.clone(), RemoteEdit::Leave);
    assert_eq!(left.session_nonce, 1);
    assert!(left.enabled);
    assert_eq!(left.room, "AB");
    assert_ne!(config_signature(&left), config_signature(&base));
    assert_eq!(config_signature(&left), "on|http://s|room|1|AB");
    let mut top = base.clone();
    top.session_nonce = u64::MAX;
    assert_eq!(update_remote_config(top, RemoteEdit::Leave).session_nonce, 0);
}

#[test]
fn shutting_down_disables_and_resets_the_nonce() {
    let mut base = cfg("http://s", true, "room", "AB");
    base.session_nonce = 7;
    let off = update_remote_config(base, RemoteEdit::Shutdown);
    assert!(!off.enabled);
    assert_eq!(off.session_nonce, 0);
    assert_eq!(off.room, "AB");
    assert_eq!(config_signature(&off), "off");
}
