use eggs::bubbles::{
    append_room_history, bubble_spool_dir, bubble_window_label, chat_history_dir,
    chat_outbox_dir, chat_tiers, chat_window_id, enqueue_chat_outbox, make_id, normalize_text,
    queue_hook_message, queue_local_user_message, queue_peer_user_message, sanitize_filename,
    sanitize_room_code, spool_file_names, spool_files, stable_peer_key, urlencoding, BubbleEvent,
    BubbleOwner, BubbleSource, BubbleStamp, BubbleStore, ChatHistoryEntry, ChatHistoryFile,
    CHAT_HISTORY_LIMIT,
};
use eggs::peers::{open_peer_from, peer_offset, peer_window_url, window_label, OpenPeers};
use eggs::remote::{PeerSnapshot, PeerTable};
use eggs::remote_assets::CachedAssets;

fn s(x: &str) -> String {
    x.to_string()
}

fn stamp(ms: u64, seq: u64) -> BubbleStamp {
    BubbleStamp { id_ms: 0x1a2b, pid: 42, seq, created_ms: ms }
}

fn peer_owner(id: &str, dev: Option<&str>) -> BubbleOwner {
    BubbleOwner::Peer { peer_id: s(id), device_id: dev.map(s) }
}

fn chat_event(owner: BubbleOwner, text: &str, ms: u64) -> BubbleEvent {
    BubbleEvent {
        id: format!("e{ms}"),
        owner,
        source: BubbleSource::PeerUserInput,
        text: s(text),
        ttl_ms: 12_000,
        created_ms: ms,
        room_code: None,
        device_id: None,
    }
}

#[test]
fn names_and_ids() {
    assert_eq!(sanitize_filename("a/b c!"), "abc");
    assert_eq!(sanitize_filename("///"), "bubble");
    assert_eq!(sanitize_room_code(" ab-c!d "), "AB-CD");
    assert_eq!(stable_peer_key("peer 1", Some("  dev 9 ")), "dev9");
    assert_eq!(stable_peer_key("peer 1", Some("  ")), "peer1");
    assert_eq!(make_id("hook", stamp(0, 255)), "hook-1a2b-42-ff");
    assert_eq!(urlencoding("a b/é~"), "a%20b%2F%E9~");
    assert_eq!(bubble_window_label("chat-peer-x"), "bubble-chat-peer-x");
    assert_eq!(chat_window_id(&BubbleOwner::Local), "chat-local");
    assert_eq!(chat_window_id(&peer_owner("p", Some("d"))), "chat-peer-d");
    assert_eq!(spool_file_names("x/y"), (s("xy.json"), s("xy.tmp")));
    assert_eq!(normalize_text("  hi  "), Some(s("hi")));
    assert_eq!(normalize_text("   "), None);
    assert_eq!(normalize_text(&"x".repeat(2500)).unwrap().chars().count(), 2000);
}

#[test]
fn queued_events() {
    let e = queue_hook_message(" done ", stamp(7, 1)).unwrap();
    assert_eq!((e.id.as_str(), e.text.as_str(), e.ttl_ms, e.created_ms), ("hook-1a2b-42-1", "done", 8000, 7));
    assert!(queue_hook_message("  ", stamp(7, 1)).is_none());
    let u = queue_local_user_message("hey", Some(s("AB")), stamp(9, 2)).unwrap();
    assert_eq!(u.source, BubbleSource::UserInput);
    assert_eq!(u.room_code, Some(s("AB")));
    let p = queue_peer_user_message("p!1", "yo", None, Some(s("dev")), stamp(9, 3)).unwrap();
    assert_eq!(p.owner, peer_owner("p1", Some("dev")));
    assert!(queue_peer_user_message("!!", "yo", None, None, stamp(9, 3)).is_none());
    let c = enqueue_chat_outbox(" line ", None, stamp(5, 4)).unwrap();
    assert_eq!((c.id.as_str(), c.text.as_str()), ("chat-1a2b-42-4", "line"));
}

#[test]
fn room_history_appends() {
    let entry = ChatHistoryEntry {
        id: s("e1"),
        source: BubbleSource::UserInput,
        owner: BubbleOwner::Local,
        text: s("hi"),
        created_ms: 1,
        device_id: None,
    };
    let (name, file) = append_room_history("ab", entry.clone(), None, 50).unwrap();
    assert_eq!(name, "AB.json");
    assert_eq!(file.room_code, "AB");
    assert_eq!(file.messages, vec![entry.clone()]);
    let existing = ChatHistoryFile { room_code: s("AB"), updated_ms: 3, messages: vec![entry.clone()] };
    let (_, file) = append_room_history("ab", entry.clone(), Some(existing), 60).unwrap();
    assert_eq!(file.messages.len(), 2);
    assert_eq!(file.updated_ms, 60);
    assert!(append_room_history("!!", entry, None, 1).is_none());
}

#[test]
fn chat_history_keeps_the_last_five_lines() {
    let mut store = BubbleStore::new();
    let owner = peer_owner("p", Some("dev"));
    let (id, opened) = store.show(chat_event(owner.clone(), "m0", 0));
    assert_eq!(id, "chat-peer-dev");
    assert!(opened);
    for i in 1..8u64 {
        let (_, opened) = store.show(chat_event(owner.clone(), &format!("m{i}"), i));
        assert!(!opened);
    }
    let init = store.get_init("chat-peer-dev").unwrap();
    assert_eq!(init.messages.len(), CHAT_HISTORY_LIMIT);
    assert_eq!(init.messages, vec![s("m3"), s("m4"), s("m5"), s("m6"), s("m7")]);
    assert_eq!(init.text, "m7");
    assert_eq!(init.mode, "chat");
    assert!(store.dismiss_chat("chat-peer-dev"));
    assert!(!store.is_open("chat-peer-dev"));
    let (_, opened) = store.show(chat_event(owner, "again", 9));
    assert!(opened);
    assert_eq!(store.get_init("chat-peer-dev").unwrap().messages.len(), CHAT_HISTORY_LIMIT);
}

#[test]
fn hook_bubbles_expire_unless_hovered() {
    let mut store = BubbleStore::new();
    let h1 = queue_hook_message("a", stamp(1000, 1)).unwrap();
    let h2 = queue_hook_message("b", stamp(1000, 2)).unwrap();
    assert!(store.show(h1.clone()).1);
    assert!(store.show(h2.clone()).1);
    store.set_hover(&h2.id, true);
    assert_eq!(store.expired_ids(8999), Vec::<String>::new());
    assert_eq!(store.expired_ids(9000), vec![h1.id.clone()]);
    assert!(store.close(&h1.id));
    assert!(!store.close(&h1.id));
    assert!(!store.dismiss_chat(&h2.id));
    assert_eq!(store.close_all(), vec![bubble_window_label(&h2.id)]);
}

#[test]
fn departed_peers_lose_their_bubbles() {
    let mut store = BubbleStore::new();
    store.show(chat_event(peer_owner("p1", None), "x", 1));
    store.show(chat_event(peer_owner("p2", None), "y", 2));
    store.show(queue_hook_message("h", stamp(3, 1)).unwrap());
    let closed = store.sync_peer_owners(&vec![s("p2")]);
    assert_eq!(closed, vec![s("chat-peer-p1")]);
    assert!(store.is_open("chat-peer-p2"));
}

#[test]
fn layout_order_groups_by_owner() {
    let mut store = BubbleStore::new();
    store.show(queue_hook_message("h", stamp(5, 1)).unwrap());
    store.show(BubbleEvent { source: BubbleSource::UserInput, ..chat_event(BubbleOwner::Local, "c", 9) });
    store.show(chat_event(peer_owner("a", None), "x", 1));
    let order: Vec<String> = store.layout_order().iter().map(|b| b.id.clone()).collect();
    assert_eq!(order, vec![s("chat-local"), s("hook-1a2b-42-1"), s("chat-peer-a")]);
    let tiers = chat_tiers(&vec![s("local"), s("local"), s("peer:a"), s("peer:b")]);
    assert_eq!(tiers, vec![(s("local"), 0), (s("peer:a"), 1), (s("peer:b"), 0)]);
}

#[test]
fn spool_directories_and_files() {
    assert_eq!(bubble_spool_dir("/e"), "/e/bubble-spool");
    assert_eq!(chat_outbox_dir("/e"), "/e/chat-outbox");
    assert_eq!(chat_history_dir("/e"), "/e/chat-history");
    let files = spool_files(&vec![s("b.json"), s("a.tmp"), s("a.json"), s("c.JSON"), s("b.json")]);
    assert_eq!(files, vec![s("a.json"), s("b.json")]);
}

fn snapshot(id: &str, state: &str, sprite_url: &str) -> PeerSnapshot {
    PeerSnapshot {
        peer_id: s(id),
        device_id: s(""),
        state: s(state),
        sprite: s("cat"),
        sprite_url: s(sprite_url),
        json_url: s("http://h/assets/x/pet.json"),
        config_url: None,
    }
}

fn cached(id: &str) -> CachedAssets {
    CachedAssets {
        asset_id: s(id),
        sprite_path: format!("/c/{id}/spritesheet.png"),
        json_path: format!("/c/{id}/pet.json"),
        config_path: None,
    }
}

#[test]
fn peer_window_names() {
    assert_eq!(window_label("ab:c-1"), "peer-abc-1");
    assert_eq!(peer_window_url("a b"), "peer.html#a%20b");
}

#[test]
fn peer_windows_follow_the_table() {
    let mut open = OpenPeers::new();
    open.insert(open_peer_from(&snapshot("gone", "idle", "http://h/assets/x/s.png"), &cached("x")));
    open.insert(open_peer_from(&snapshot("same", "", "http://h/assets/x/s.png"), &cached("x")));
    open.insert(open_peer_from(&snapshot("swap", "idle", "http://h/assets/x/s.png"), &cached("x")));
    assert_eq!(open.get_init("same", 600).unwrap().state, "idle");
    assert_eq!(open.get_init("same", 600).unwrap().scale_millis, 600);
    let mut table = PeerTable::new();
    table.upsert(snapshot("same", "waving", "http://h/assets/x/s.png"));
    table.upsert(snapshot("swap", "idle", "http://h/assets/y/s.png"));
    table.upsert(snapshot("new", "idle", "http://h/assets/z/s.png"));
    table.upsert(snapshot("nourl", "idle", ""));
    let plan = open.sync_plan(&table);
    assert_eq!(plan.to_close, vec![s("gone")]);
    let ids = |v: &Vec<PeerSnapshot>| v.iter().map(|p| p.peer_id.clone()).collect::<Vec<_>>();
    assert_eq!(ids(&plan.to_replace), vec![s("swap")]);
    assert_eq!(ids(&plan.to_open), vec![s("new")]);
    assert_eq!(plan.state_changes, vec![(s("same"), s("waving"))]);
    assert!(open.set_state("same", s("waving")));
    assert!(!open.set_state("nobody", s("x")));
    open.remove("gone");
    assert!(open.get_init("gone", 1000).is_none());
    assert_eq!(open.ids().len(), 2);
    open.clear();
    assert!(open.ids().is_empty());
}

#[test]
fn peer_offsets_from_hash() {
    assert_eq!(peer_offset(0), (true, -20, -20));
    assert_eq!(peer_offset(1), (false, -20, -20));
    assert_eq!(peer_offset(2 * 40), (true, 20, -20));
    assert_eq!(peer_offset(10282), (true, -4, 0));
    let (_, dx, dy) = peer_offset(u64::MAX);
    assert!((-20..=20).contains(&dx) && (-20..=20).contains(&dy));
}

#[test]
fn a_carried_out_sync_plan_leaves_nothing_to_do() {
    let mut open = OpenPeers::new();
    open.insert(open_peer_from(&snapshot("gone", "idle", "http://h/assets/x/s.png"), &cached("x")));
    open.insert(open_peer_from(&snapshot("same", "idle", "http://h/assets/x/s.png"), &cached("x")));
    open.insert(open_peer_from(&snapshot("swap", "idle", "http://h/assets/x/s.png"), &cached("x")));
    let mut table = PeerTable::new();
    table.upsert(snapshot("same", "waving", "http://h/assets/x/s.png"));
    table.upsert(snapshot("swap", "idle", "http://h/assets/y/s.png"));
    table.upsert(snapshot("new", "running", "http://h/assets/z/s.png"));
    let plan = open.sync_plan(&table);
    for id in &plan.to_close {
        open.remove(id);
    }
    for p in plan.to_replace.iter().chain(plan.to_open.iter()) {
        let asset = eggs::remote_assets::asset_id_from_url(&p.sprite_url).unwrap();
        open.remove(&p.peer_id);
        open.insert(open_peer_from(p, &cached(&asset)));
    }
    for (id, st) in &plan.state_changes {
        assert!(open.set_state(id, st.clone()));
    }
    let again = open.sync_plan(&table);
    assert!(again.to_close.is_empty());
    assert!(again.to_open.is_empty());
    assert!(again.to_replace.is_empty());
    assert!(again.state_changes.is_empty());
}
