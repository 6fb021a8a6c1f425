//! Remote multiplayer: the `remote.json` configuration, the reconnect
//! signature, the websocket URL, the classification of connection errors,
//! the presence table of peers fed by server messages, the runtime flags
//! shared with the menu, and the connection actor's decisions.
use vstd::prelude::*;

use crate::upload::{retryable_spec, upload_error_text, UploadError};
use crate::text::{
    decimal, decimal_exec, has_substring, lemma_lex_irrefl, lemma_lex_total, lemma_lex_trans,
    lex_lt, lex_lt_exec, owned, push_str, str_eq, trim, trim_end_char, trim_end_matches_char,
    trim_seq, contains_exec, join_path, path_join, lemma_trim_idempotent,
};

verus! {

// ---------------------------------------------------------------------------
// remote.json
// ---------------------------------------------------------------------------

#[derive(Debug, Clone, PartialEq, Eq)]
pub struct RemoteConfig {
    pub server_url: String,
    pub enabled: bool,
    /// `random` (match pool) or `room`.
    pub mode: String,
    pub room: String,
    /// The cap of the invite room, saved with it.
    pub room_limit: u32,
    /// Bumped to leave the current room or pair: a change forces a
    /// reconnect.
    pub session_nonce: u64,
}

/// The room cap used when none is saved.
pub const DEFAULT_ROOM_LIMIT: u32 = 5;

/// The server used when none is configured: `EGGS_REMOTE_URL` when it is
/// set, else the local development server.
pub fn default_server_url(env_url: Option<String>) -> (r: String)
    ensures
        r@ == (match env_url {
            Some(u) => u@,
            None => "http://localhost:8787"@,
        }),
{
    match env_url {
        Some(u) => u,
        None => owned("http://localhost:8787"),
    }
}

pub fn default_mode() -> (r: String)
    ensures
        r@ == "random"@,
{
    owned("random")
}

/// `<app dir>/remote.json`.
pub fn remote_path(app_dir: &str) -> (r: String)
    ensures
        r@ == path_join(app_dir@, "remote.json"@),
{
    join_path(app_dir, "remote.json")
}

/// A fresh configuration: disabled, random matching, no room, the default
/// room cap, nonce zero.
pub fn default_remote_config(server_url: String) -> (r: RemoteConfig)
    ensures
        r.server_url == server_url,
        !r.enabled,
        r.mode@ == "random"@,
        r.room@.len() == 0,
        r.room_limit == DEFAULT_ROOM_LIMIT,
        r.session_nonce == 0,
{
    RemoteConfig {
        server_url,
        enabled: false,
        mode: default_mode(),
        room: String::new(),
        room_limit: DEFAULT_ROOM_LIMIT,
        session_nonce: 0,
    }
}

pub open spec fn normalized_url(url: Seq<char>, default_url: Seq<char>) -> Seq<char> {
    let u = trim_seq(trim_end_char(url, '/'));
    if u.len() == 0 {
        default_url
    } else {
        u
    }
}

/// Room mode stays only with a room code (trimmed, non-empty); anything
/// else is the random match pool.
pub open spec fn normalized_mode(mode: Seq<char>, room: Seq<char>) -> Seq<char> {
    if mode == "room"@ && trim_seq(room).len() > 0 {
        "room"@
    } else {
        "random"@
    }
}

/// A configuration as read is cleaned up: the server URL loses trailing
/// slashes and surrounding white space (the default server is used when
/// nothing is left), the room code is trimmed, and the mode is `room` only
/// when it was `room` and a room code is left; otherwise `random`. The room
/// cap and the nonce are kept.
pub fn normalize_remote_config(cfg: RemoteConfig, default_url: String) -> (r: RemoteConfig)
    ensures
        r.server_url@ == normalized_url(cfg.server_url@, default_url@),
        r.enabled == cfg.enabled,
        r.mode@ == normalized_mode(cfg.mode@, cfg.room@),
        r.room@ == trim_seq(cfg.room@),
        r.room_limit == cfg.room_limit,
        r.session_nonce == cfg.session_nonce,
{
    let stripped = trim_end_matches_char(cfg.server_url.as_str(), '/');
    let mut url = trim(stripped.as_str());
    if url.as_str().is_empty() {
        url = default_url;
    }
    let room = trim(cfg.room.as_str());
    let mode = if str_eq(cfg.mode.as_str(), "room") && !room.as_str().is_empty() {
        owned("room")
    } else {
        owned("random")
    };
    proof {
        reveal_strlit("room");
        reveal_strlit("random");
    }
    RemoteConfig {
        server_url: url,
        enabled: cfg.enabled,
        mode,
        room,
        room_limit: cfg.room_limit,
        session_nonce: cfg.session_nonce,
    }
}

/// The edits the command line and the menu make to `remote.json`.
pub enum RemoteEdit {
    /// Enable remote play with the saved mode and room (the random match
    /// pool when room mode has no room).
    Resume,
    /// Enable remote play in the room with this code, and save the room
    /// cap when one is given.
    JoinRoom(String, Option<u32>),
    Enable,
    Disable,
    /// Leave the current room or pair, staying enabled: the nonce is bumped
    /// (wrapping to zero after its largest value).
    Leave,
    /// Disable on quitting, and reset the nonce.
    Shutdown,
    SetServer(String),
    /// Switch remote play on or off.
    Toggle,
    /// Enable remote play in the random match pool, keeping the saved room.
    UseRandom,
    /// Enable remote play in the saved room.
    UseRoom,
}

pub open spec fn bumped(n: u64) -> u64 {
    if n < u64::MAX {
        (n + 1) as u64
    } else {
        0
    }
}

pub open spec fn edited_config(cfg: RemoteConfig, edit: RemoteEdit, r: RemoteConfig) -> bool {
    match edit {
        RemoteEdit::Resume => r == RemoteConfig { enabled: true, mode: r.mode, ..cfg } && r.mode@
            == (if cfg.mode@ == "room"@ && cfg.room@.len() == 0 {
            "random"@
        } else {
            cfg.mode@
        }),
        RemoteEdit::JoinRoom(code, limit) => r == RemoteConfig {
            enabled: true,
            mode: r.mode,
            room: code,
            room_limit: match limit {
                Some(l) => l,
                None => cfg.room_limit,
            },
            ..cfg
        } && r.mode@ == "room"@,
        RemoteEdit::Enable => r == RemoteConfig { enabled: true, ..cfg },
        RemoteEdit::Disable => r == RemoteConfig { enabled: false, ..cfg },
        RemoteEdit::Leave => r == RemoteConfig { session_nonce: bumped(cfg.session_nonce), ..cfg },
        RemoteEdit::Shutdown => r == RemoteConfig { enabled: false, session_nonce: 0, ..cfg },
        RemoteEdit::SetServer(url) => r == RemoteConfig { server_url: url, ..cfg },
        RemoteEdit::Toggle => r == RemoteConfig { enabled: !cfg.enabled, ..cfg },
        RemoteEdit::UseRandom => r == RemoteConfig { enabled: true, mode: r.mode, ..cfg } && r.mode@
            == "random"@,
        RemoteEdit::UseRoom => r == RemoteConfig { enabled: true, mode: r.mode, ..cfg } && r.mode@
            == "room"@,
    }
}

/// The configuration to write back after an edit of the one read; every
/// field the edit does not name is kept.
pub fn update_remote_config(cfg: RemoteConfig, edit: RemoteEdit) -> (r: RemoteConfig)
    ensures
        edited_config(cfg, edit, r),
{
    match edit {
        RemoteEdit::Resume => {
            let fallback = str_eq(cfg.mode.as_str(), "room") && cfg.room.as_str().is_empty();
            if fallback {
                RemoteConfig { enabled: true, mode: owned("random"), ..cfg }
            } else {
                RemoteConfig { enabled: true, ..cfg }
            }
        },
        RemoteEdit::JoinRoom(code, limit) => {
            let room_limit = match limit {
                Some(l) => l,
                None => cfg.room_limit,
            };
            RemoteConfig { enabled: true, mode: owned("room"), room: code, room_limit, ..cfg }
        },
        RemoteEdit::Enable => RemoteConfig { enabled: true, ..cfg },
        RemoteEdit::Disable => RemoteConfig { enabled: false, ..cfg },
        RemoteEdit::Leave => {
            let n = if cfg.session_nonce < u64::MAX {
                cfg.session_nonce + 1
            } else {
                0
            };
            RemoteConfig { session_nonce: n, ..cfg }
        },
        RemoteEdit::Shutdown => RemoteConfig { enabled: false, session_nonce: 0, ..cfg },
        RemoteEdit::SetServer(url) => RemoteConfig { server_url: url, ..cfg },
        RemoteEdit::Toggle => RemoteConfig { enabled: !cfg.enabled, ..cfg },
        RemoteEdit::UseRandom => RemoteConfig { enabled: true, mode: owned("random"), ..cfg },
        RemoteEdit::UseRoom => RemoteConfig { enabled: true, mode: owned("room"), ..cfg },
    }
}

/// What a change of which forces a reconnect: `off` while disabled, else
/// the server, mode, nonce and room. The active pet is not part of it (a
/// pet swap is announced over the open connection).
pub open spec fn signature_spec(cfg: RemoteConfig) -> Seq<char> {
    if !cfg.enabled {
        "off"@
    } else {
        "on|"@ + cfg.server_url@ + "|"@ + cfg.mode@ + "|"@ + decimal(cfg.session_nonce as nat) + "|"@
            + cfg.room@
    }
}

pub fn config_signature(cfg: &RemoteConfig) -> (r: String)
    ensures
        r@ == signature_spec(*cfg),
{
    if !cfg.enabled {
        return owned("off");
    }
    let mut s = owned("on|");
    push_str(&mut s, cfg.server_url.as_str());
    push_str(&mut s, "|");
    push_str(&mut s, cfg.mode.as_str());
    push_str(&mut s, "|");
    let n = decimal_exec(cfg.session_nonce);
    push_str(&mut s, n.as_str());
    push_str(&mut s, "|");
    push_str(&mut s, cfg.room.as_str());
    s
}

// ---------------------------------------------------------------------------
// connection errors
// ---------------------------------------------------------------------------

/// What `str::to_lowercase` gives for a string.
pub uninterp spec fn lowercase(s: Seq<char>) -> Seq<char>;

/// `str::to_lowercase` (full Unicode lower-casing). The contract names the
/// result and says nothing more of it.
#[verifier::external_body]
pub(crate) fn to_lowercase(s: &str) -> (r: String)
    ensures
        r@ == lowercase(s@),
{
    s.to_lowercase()
}

/// Errors after which reconnecting cannot help: client errors of the HTTP
/// handshake and the server's refusals of the device, sprite or room.
pub open spec fn permanent_text(t: Seq<char>) -> bool {
    &&& t.len() > 0
    &&& {
        ||| has_substring(t, "http error: 400"@)
        ||| has_substring(t, "http error: 401"@)
        ||| has_substring(t, "http error: 403"@)
        ||| has_substring(t, "http error: 404"@)
        ||| has_substring(t, "http error: 409"@)
        ||| has_substring(t, "http error: 422"@)
        ||| has_substring(t, "unknown sprite for device"@)
        ||| has_substring(t, "device_id and sprite are required"@)
        ||| has_substring(t, "room code is required"@)
    }
}

/// Whether an already lower-cased error text is permanent.
pub fn is_permanent_text(text: &str) -> (r: bool)
    ensures
        r == permanent_text(text@),
{
    if text.is_empty() {
        return false;
    }
    contains_exec(text, "http error: 400") || contains_exec(text, "http error: 401")
        || contains_exec(text, "http error: 403") || contains_exec(text, "http error: 404")
        || contains_exec(text, "http error: 409") || contains_exec(text, "http error: 422")
        || contains_exec(text, "unknown sprite for device") || contains_exec(
        text,
        "device_id and sprite are required",
    ) || contains_exec(text, "room code is required")
}

/// Whether a connection error is permanent, compared without regard to case.
pub fn is_permanent_error(reason: &str) -> (r: bool)
    ensures
        r == permanent_text(lowercase(reason@)),
{
    let text = to_lowercase(reason);
    is_permanent_text(text.as_str())
}

// ---------------------------------------------------------------------------
// status shown to the webview
// ---------------------------------------------------------------------------

#[derive(Debug, Clone, PartialEq, Eq)]
pub struct RemoteStatus {
    pub enabled: bool,
    pub connected: bool,
    pub reconnecting: bool,
    pub error: String,
    pub server_url: String,
    pub mode: String,
    pub room: String,
    pub sprite: String,
}

/// `r` is the status for this configuration, pet, connection state and
/// error (trimmed).
pub open spec fn status_is(
    r: RemoteStatus,
    cfg: RemoteConfig,
    sprite: Seq<char>,
    connected: bool,
    reconnecting: bool,
    error: Seq<char>,
) -> bool {
    &&& r.enabled == cfg.enabled
    &&& r.connected == connected
    &&& r.reconnecting == reconnecting
    &&& r.error@ == trim_seq(error)
    &&& r.server_url@ == cfg.server_url@
    &&& r.mode@ == cfg.mode@
    &&& r.room@ == cfg.room@
    &&& r.sprite@ == sprite
}

pub fn build_status(
    cfg: &RemoteConfig,
    sprite: &str,
    connected: bool,
    reconnecting: bool,
    error: &str,
) -> (r: RemoteStatus)
    ensures
        status_is(r, *cfg, sprite@, connected, reconnecting, error@),
{
    RemoteStatus {
        enabled: cfg.enabled,
        connected,
        reconnecting,
        error: trim(error),
        server_url: cfg.server_url.clone(),
        mode: cfg.mode.clone(),
        room: cfg.room.clone(),
        sprite: owned(sprite),
    }
}

pub open spec fn same_status(a: RemoteStatus, b: RemoteStatus) -> bool {
    &&& a.enabled == b.enabled
    &&& a.connected == b.connected
    &&& a.reconnecting == b.reconnecting
    &&& a.error@ == b.error@
    &&& a.server_url@ == b.server_url@
    &&& a.mode@ == b.mode@
    &&& a.room@ == b.room@
    &&& a.sprite@ == b.sprite@
}

pub fn same_status_exec(a: &RemoteStatus, b: &RemoteStatus) -> (r: bool)
    ensures
        r == same_status(*a, *b),
{
    a.enabled == b.enabled && a.connected == b.connected && a.reconnecting == b.reconnecting
        && str_eq(a.error.as_str(), b.error.as_str()) && str_eq(
        a.server_url.as_str(),
        b.server_url.as_str(),
    ) && str_eq(a.mode.as_str(), b.mode.as_str()) && str_eq(a.room.as_str(), b.room.as_str())
        && str_eq(a.sprite.as_str(), b.sprite.as_str())
}

// ---------------------------------------------------------------------------
// flags shared between the actor and the menu
// ---------------------------------------------------------------------------

/// What the menu needs to know of the connection, and a pending request to
/// leave the current room.
#[derive(Debug, Clone, Copy, PartialEq, Eq, Structural)]
pub struct RemoteRuntimeSnapshot {
    pub connected: bool,
    pub peer_count: usize,
    pub leave_requested: bool,
}

impl RemoteRuntimeSnapshot {
    pub fn new() -> (r: Self)
        ensures
            !r.connected,
            r.peer_count == 0,
            !r.leave_requested,
    {
        RemoteRuntimeSnapshot { connected: false, peer_count: 0, leave_requested: false }
    }

    pub fn set_connected(&mut self, connected: bool)
        ensures
            *final(self) == (RemoteRuntimeSnapshot { connected, ..*old(self) }),
    {
        self.connected = connected;
    }

    pub fn set_peer_count(&mut self, peer_count: usize)
        ensures
            *final(self) == (RemoteRuntimeSnapshot { peer_count, ..*old(self) }),
    {
        self.peer_count = peer_count;
    }
}

/// Asks the actor to leave the current room (it stays enabled).
pub fn request_leave_room(snap: &mut RemoteRuntimeSnapshot)
    ensures
        *final(snap) == (RemoteRuntimeSnapshot { leave_requested: true, ..*old(snap) }),
{
    snap.leave_requested = true;
}

/// Leaving is offered while connected with at least one peer.
pub fn can_leave_room(snap: &RemoteRuntimeSnapshot) -> (r: bool)
    ensures
        r == (snap.connected && snap.peer_count > 0),
{
    snap.connected && snap.peer_count > 0
}

/// Returns the pending leave request and clears it.
pub fn take_leave_request(snap: &mut RemoteRuntimeSnapshot) -> (r: bool)
    ensures
        r == old(snap).leave_requested,
        *final(snap) == (RemoteRuntimeSnapshot { leave_requested: false, ..*old(snap) }),
{
    let requested = snap.leave_requested;
    snap.leave_requested = false;
    requested
}

/// A leave request is answered once: taking it right after it was made
/// gives `true`, taking it again gives `false`, and nothing else changes.
pub proof fn law_leave_request_taken_once(s: RemoteRuntimeSnapshot)
    ensures
        ({
            let requested = RemoteRuntimeSnapshot { leave_requested: true, ..s };
            let taken = RemoteRuntimeSnapshot { leave_requested: false, ..requested };
            &&& requested.leave_requested
            &&& !taken.leave_requested
            &&& taken.connected == s.connected
            &&& taken.peer_count == s.peer_count
        }),
{
}

// ---------------------------------------------------------------------------
// peers
// ---------------------------------------------------------------------------

/// A field of a JSON object, read as a string.
#[derive(Debug, Clone, PartialEq, Eq)]
pub enum JsonText {
    Absent,
    Text(String),
    /// Present, but not a string.
    NotText,
}

pub open spec fn text_or_empty(f: JsonText) -> Seq<char> {
    match f {
        JsonText::Text(s) => s@,
        _ => Seq::empty(),
    }
}

/// The fields of a peer's `sprite` object.
#[derive(Debug, Clone)]
pub struct SpriteFields {
    pub name: JsonText,
    pub sprite_url: JsonText,
    /// The older name of `sprite_url`.
    pub png_url: JsonText,
    pub json_url: JsonText,
    pub config_url: JsonText,
}

/// The fields of a server message about one peer.
#[derive(Debug, Clone)]
pub struct PeerMessage {
    pub peer_id: JsonText,
    pub device_id: JsonText,
    pub state: JsonText,
    pub action: JsonText,
    /// `None` when `sprite` is missing or not an object.
    pub sprite: Option<SpriteFields>,
}

/// A server message: its `type`, its peer fields, and its `peers` array
/// (`None` when missing or not an array).
#[derive(Debug, Clone)]
pub struct IncomingMessage {
    pub msg_type: JsonText,
    pub peer: PeerMessage,
    pub peers: Option<Vec<PeerMessage>>,
}

#[derive(Debug, Clone)]
pub struct PeerSnapshot {
    pub peer_id: String,
    pub device_id: String,
    pub state: String,
    /// The pet the peer shows.
    pub sprite: String,
    /// Where the peer's spritesheet can be fetched.
    pub sprite_url: String,
    /// Where the peer's manifest can be fetched.
    pub json_url: String,
    pub config_url: Option<String>,
}

pub struct PeerSnapshotV {
    pub peer_id: Seq<char>,
    pub device_id: Seq<char>,
    pub state: Seq<char>,
    pub sprite: Seq<char>,
    pub sprite_url: Seq<char>,
    pub json_url: Seq<char>,
    pub config_url: Option<Seq<char>>,
}

pub open spec fn opt_view(o: Option<String>) -> Option<Seq<char>> {
    match o {
        Some(s) => Some(s@),
        None => None,
    }
}

impl View for PeerSnapshot {
    type V = PeerSnapshotV;

    open spec fn view(&self) -> PeerSnapshotV {
        PeerSnapshotV {
            peer_id: self.peer_id@,
            device_id: self.device_id@,
            state: self.state@,
            sprite: self.sprite@,
            sprite_url: self.sprite_url@,
            json_url: self.json_url@,
            config_url: opt_view(self.config_url),
        }
    }
}

fn text_of(f: &JsonText) -> (r: String)
    ensures
        r@ == text_or_empty(*f),
{
    match f {
        JsonText::Text(s) => s.clone(),
        _ => String::new(),
    }
}

fn dup_opt(o: &Option<String>) -> (r: Option<String>)
    ensures
        opt_view(r) == opt_view(*o),
{
    match o {
        Some(s) => Some(s.clone()),
        None => None,
    }
}

impl PeerSnapshot {
    pub fn duplicate(&self) -> (r: Self)
        ensures
            r@ == self@,
    {
        PeerSnapshot {
            peer_id: self.peer_id.clone(),
            device_id: self.device_id.clone(),
            state: self.state.clone(),
            sprite: self.sprite.clone(),
            sprite_url: self.sprite_url.clone(),
            json_url: self.json_url.clone(),
            config_url: dup_opt(&self.config_url),
        }
    }
}

/// The peer a message describes: it needs a non-empty string `peer_id`;
/// `state` falls back to `action` when missing, `sprite_url` to `png_url`;
/// other missing or non-string fields are empty.
pub open spec fn peer_spec(msg: PeerMessage) -> Option<PeerSnapshotV> {
    match msg.peer_id {
        JsonText::Text(id) => if id@.len() == 0 {
            None
        } else {
            Some(
                PeerSnapshotV {
                    peer_id: id@,
                    device_id: text_or_empty(msg.device_id),
                    state: match msg.state {
                        JsonText::Absent => text_or_empty(msg.action),
                        st => text_or_empty(st),
                    },
                    sprite: match msg.sprite {
                        Some(o) => text_or_empty(o.name),
                        None => Seq::empty(),
                    },
                    sprite_url: match msg.sprite {
                        Some(o) => match o.sprite_url {
                            JsonText::Absent => text_or_empty(o.png_url),
                            u => text_or_empty(u),
                        },
                        None => Seq::empty(),
                    },
                    json_url: match msg.sprite {
                        Some(o) => text_or_empty(o.json_url),
                        None => Seq::empty(),
                    },
                    config_url: match msg.sprite {
                        Some(o) => match o.config_url {
                            JsonText::Text(c) => Some(c@),
                            _ => None,
                        },
                        None => None,
                    },
                },
            )
        },
        _ => None,
    }
}

pub fn peer_from_message(msg: &PeerMessage) -> (r: Option<PeerSnapshot>)
    ensures
        match r {
            Some(p) => peer_spec(*msg) == Some(p@),
            None => peer_spec(*msg) is None,
        },
{
    let peer_id = match &msg.peer_id {
        JsonText::Text(id) => id.clone(),
        _ => {
            return None;
        },
    };
    if peer_id.as_str().is_empty() {
        return None;
    }
    let device_id = text_of(&msg.device_id);
    let state = match &msg.state {
        JsonText::Absent => text_of(&msg.action),
        st => text_of(st),
    };
    let (sprite, sprite_url, json_url, config_url) = match &msg.sprite {
        Some(o) => {
            let url = match &o.sprite_url {
                JsonText::Absent => text_of(&o.png_url),
                u => text_of(u),
            };
            let config = match &o.config_url {
                JsonText::Text(c) => Some(c.clone()),
                _ => None,
            };
            (text_of(&o.name), url, text_of(&o.json_url), config)
        },
        None => (String::new(), String::new(), String::new(), None),
    };
    Some(PeerSnapshot { peer_id, device_id, state, sprite, sprite_url, json_url, config_url })
}

pub open spec fn or_prev(new: Seq<char>, prev: Seq<char>) -> Seq<char> {
    if new.len() == 0 {
        prev
    } else {
        new
    }
}

/// An update keeps what it does not say: empty fields (and a missing
/// config URL) are taken from the peer as it was known.
pub open spec fn filled_from(next: PeerSnapshotV, prev: PeerSnapshotV) -> PeerSnapshotV {
    PeerSnapshotV {
        peer_id: next.peer_id,
        device_id: or_prev(next.device_id, prev.device_id),
        state: or_prev(next.state, prev.state),
        sprite: or_prev(next.sprite, prev.sprite),
        sprite_url: or_prev(next.sprite_url, prev.sprite_url),
        json_url: or_prev(next.json_url, prev.json_url),
        config_url: match next.config_url {
            Some(c) => Some(c),
            None => prev.config_url,
        },
    }
}

pub open spec fn merge_spec(existing: Option<PeerSnapshotV>, msg: PeerMessage) -> Option<
    PeerSnapshotV,
> {
    match peer_spec(msg) {
        Some(p) => match existing {
            Some(prev) => Some(filled_from(p, prev)),
            None => Some(p),
        },
        None => existing,
    }
}

fn fill_field(next: &mut String, prev: &String)
    ensures
        final(next)@ == or_prev(old(next)@, prev@),
{
    if next.as_str().is_empty() {
        *next = prev.clone();
    }
}

/// A peer update merged into what was known of the peer.
pub fn merge_peer_update(existing: Option<&PeerSnapshot>, msg: &PeerMessage) -> (r: Option<
    PeerSnapshot,
>)
    ensures
        match r {
            Some(p) => merge_spec(
                match existing {
                    Some(e) => Some(e@),
                    None => None,
                },
                *msg,
            ) == Some(p@),
            None => merge_spec(
                match existing {
                    Some(e) => Some(e@),
                    None => None,
                },
                *msg,
            ) is None,
        },
{
    let mut next = match peer_from_message(msg) {
        Some(p) => p,
        None => {
            return match existing {
                Some(e) => Some(e.duplicate()),
                None => None,
            };
        },
    };
    if let Some(prev) = existing {
        fill_field(&mut next.sprite, &prev.sprite);
        fill_field(&mut next.sprite_url, &prev.sprite_url);
        fill_field(&mut next.json_url, &prev.json_url);
        fill_field(&mut next.device_id, &prev.device_id);
        fill_field(&mut next.state, &prev.state);
        if next.config_url.is_none() {
            next.config_url = dup_opt(&prev.config_url);
        }
    }
    Some(next)
}

// ---------------------------------------------------------------------------
// the table of peers
// ---------------------------------------------------------------------------

pub open spec fn snaps_view(s: Seq<PeerSnapshot>) -> Seq<PeerSnapshotV> {
    s.map_values(|p: PeerSnapshot| p@)
}

pub open spec fn ids_sorted(s: Seq<PeerSnapshotV>) -> bool {
    forall|i: int, j: int|
        0 <= i < j < s.len() ==> lex_lt(#[trigger] s[i].peer_id, #[trigger] s[j].peer_id)
}

/// The peer known under `id`.
pub open spec fn lookup(s: Seq<PeerSnapshotV>, id: Seq<char>) -> Option<PeerSnapshotV> {
    if exists|i: int| 0 <= i < s.len() && #[trigger] s[i].peer_id == id {
        Some(s[choose|i: int| 0 <= i < s.len() && #[trigger] s[i].peer_id == id])
    } else {
        None
    }
}

/// In a table sorted by id, the peer at `i` is the one known under its id.
pub proof fn lemma_lookup(s: Seq<PeerSnapshotV>, i: int)
    requires
        ids_sorted(s),
        0 <= i < s.len(),
    ensures
        lookup(s, s[i].peer_id) == Some(s[i]),
{
    let id = s[i].peer_id;
    assert(exists|j: int| 0 <= j < s.len() && #[trigger] s[j].peer_id == id);
    let j = choose|j: int| 0 <= j < s.len() && #[trigger] s[j].peer_id == id;
    if j < i {
        assert(lex_lt(s[j].peer_id, s[i].peer_id));
        lemma_lex_irrefl(id);
    } else if j > i {
        assert(lex_lt(s[i].peer_id, s[j].peer_id));
        lemma_lex_irrefl(id);
    }
}

/// The peers currently in the room, each under its id, kept in id order.
pub struct PeerTable {
    entries: Vec<PeerSnapshot>,
}

impl View for PeerTable {
    type V = Seq<PeerSnapshotV>;

    closed spec fn view(&self) -> Seq<PeerSnapshotV> {
        snaps_view(self.entries@)
    }
}

pub open spec fn upserted(old: Seq<PeerSnapshotV>, new: Seq<PeerSnapshotV>, p: PeerSnapshotV) -> bool {
    forall|k: Seq<char>|
        #[trigger] lookup(new, k) == (if k == p.peer_id {
            Some(p)
        } else {
            lookup(old, k)
        })
}

pub open spec fn removed(old: Seq<PeerSnapshotV>, new: Seq<PeerSnapshotV>, id: Seq<char>) -> bool {
    forall|k: Seq<char>|
        #[trigger] lookup(new, k) == (if k == id {
            None
        } else {
            lookup(old, k)
        })
}

impl PeerTable {
    pub open spec fn wf(&self) -> bool {
        ids_sorted(self@)
    }

    pub fn new() -> (r: Self)
        ensures
            r.wf(),
            r@.len() == 0,
    {
        let r = PeerTable { entries: Vec::new() };
        assert(r@ =~= Seq::<PeerSnapshotV>::empty());
        r
    }

    pub fn len(&self) -> (r: usize)
        ensures
            r == self@.len(),
    {
        self.entries.len()
    }

    pub fn clear(&mut self)
        ensures
            final(self).wf(),
            final(self)@.len() == 0,
    {
        self.entries = Vec::new();
        assert(self@ =~= Seq::<PeerSnapshotV>::empty());
    }

    /// The peer known under `id`.
    pub fn get(&self, id: &str) -> (r: Option<&PeerSnapshot>)
        requires
            self.wf(),
        ensures
            match r {
                Some(p) => lookup(self@, id@) == Some(p@),
                None => lookup(self@, id@) is None,
            },
    {
        let ghost v = self@;
        let mut i: usize = 0;
        while i < self.entries.len()
            invariant
                v == self@,
                v == snaps_view(self.entries@),
                ids_sorted(v),
                i <= v.len(),
                forall|k: int| 0 <= k < i ==> v[k].peer_id != id@,
            decreases self.entries.len() - i,
        {
            if str_eq(self.entries[i].peer_id.as_str(), id) {
                proof {
                    lemma_lookup(v, i as int);
                }
                return Some(&self.entries[i]);
            }
            i += 1;
        }
        None
    }

    /// Stores `p` under its id, replacing the peer known under it.
    pub fn upsert(&mut self, p: PeerSnapshot)
        requires
            old(self).wf(),
        ensures
            final(self).wf(),
            upserted(old(self)@, final(self)@, p@),
    {
        let ghost pre = self@;
        let ghost pv = p@;
        let mut i: usize = 0;
        while i < self.entries.len() && lex_lt_exec(
            self.entries[i].peer_id.as_str(),
            p.peer_id.as_str(),
        )
            invariant
                pre == self@,
                pre == snaps_view(self.entries@),
                pv == p@,
                i <= pre.len(),
                forall|k: int| 0 <= k < i ==> lex_lt(#[trigger] pre[k].peer_id, pv.peer_id),
            decreases self.entries.len() - i,
        {
            i += 1;
        }
        if i < self.entries.len() && str_eq(self.entries[i].peer_id.as_str(), p.peer_id.as_str()) {
            self.entries.set(i, p);
            let ghost post = self@;
            proof {
                assert(post =~= pre.update(i as int, pv));
                assert forall|a: int, b: int| 0 <= a < b < post.len() implies lex_lt(
                    #[trigger] post[a].peer_id,
                    #[trigger] post[b].peer_id,
                ) by {
                    assert(pre[a].peer_id == post[a].peer_id);
                    assert(pre[b].peer_id == post[b].peer_id);
                }
                assert forall|k: Seq<char>| #[trigger]
                    lookup(post, k) == (if k == pv.peer_id {
                        Some(pv)
                    } else {
                        lookup(pre, k)
                    }) by {
                    if k == pv.peer_id {
                        lemma_lookup(post, i as int);
                    } else {
                        self.lemma_lookup_same(pre, post, i as int, k);
                    }
                }
            }
        } else {
            proof {
                if i < pre.len() {
                    lemma_lex_total(pre[i as int].peer_id, pv.peer_id);
                }
            }
            self.entries.insert(i, p);
            let ghost post = self@;
            proof {
                assert(post =~= pre.insert(i as int, pv));
                assert forall|a: int, b: int| 0 <= a < b < post.len() implies lex_lt(
                    #[trigger] post[a].peer_id,
                    #[trigger] post[b].peer_id,
                ) by {
                    if b < i {
                        assert(post[a] == pre[a] && post[b] == pre[b]);
                    } else if b == i {
                        assert(post[a] == pre[a]);
                    } else if a == i {
                        assert(post[b] == pre[b - 1]);
                        if b - 1 > i {
                            assert(lex_lt(pre[i as int].peer_id, pre[b - 1].peer_id));
                            lemma_lex_trans(pv.peer_id, pre[i as int].peer_id, pre[b - 1].peer_id);
                        }
                    } else if a < i {
                        assert(post[a] == pre[a] && post[b] == pre[b - 1]);
                    } else {
                        assert(post[a] == pre[a - 1] && post[b] == pre[b - 1]);
                    }
                }
                assert forall|k: Seq<char>| #[trigger]
                    lookup(post, k) == (if k == pv.peer_id {
                        Some(pv)
                    } else {
                        lookup(pre, k)
                    }) by {
                    if k == pv.peer_id {
                        lemma_lookup(post, i as int);
                    } else {
                        if exists|j: int| 0 <= j < pre.len() && #[trigger] pre[j].peer_id == k {
                            let j = choose|j: int| 0 <= j < pre.len() && #[trigger] pre[j].peer_id == k;
                            lemma_lookup(pre, j);
                            if j < i {
                                assert(post[j] == pre[j]);
                                lemma_lookup(post, j);
                            } else {
                                assert(post[j + 1] == pre[j]);
                                lemma_lookup(post, j + 1);
                            }
                        } else {
                            assert forall|j: int| 0 <= j < post.len() implies #[trigger] post[j].peer_id
                                != k by {
                                if j < i {
                                    assert(post[j] == pre[j]);
                                } else if j > i {
                                    assert(post[j] == pre[j - 1]);
                                }
                            }
                        }
                    }
                }
            }
        }
    }

    proof fn lemma_lookup_same(
        &self,
        pre: Seq<PeerSnapshotV>,
        post: Seq<PeerSnapshotV>,
        i: int,
        k: Seq<char>,
    )
        requires
            ids_sorted(pre),
            ids_sorted(post),
            0 <= i < pre.len(),
            post.len() == pre.len(),
            forall|j: int| 0 <= j < pre.len() && j != i ==> post[j] == pre[j],
            post[i].peer_id == pre[i].peer_id,
            k != pre[i].peer_id,
        ensures
            lookup(post, k) == lookup(pre, k),
    {
        if exists|j: int| 0 <= j < pre.len() && #[trigger] pre[j].peer_id == k {
            let j = choose|j: int| 0 <= j < pre.len() && #[trigger] pre[j].peer_id == k;
            lemma_lookup(pre, j);
            lemma_lookup(post, j);
        } else {
            assert forall|j: int| 0 <= j < post.len() implies #[trigger] post[j].peer_id != k by {
                if j != i {
                    assert(post[j] == pre[j]);
                }
            }
        }
    }

    /// Forgets the peer known under `id`; says whether there was one.
    pub fn remove(&mut self, id: &str) -> (r: bool)
        requires
            old(self).wf(),
        ensures
            final(self).wf(),
            r == lookup(old(self)@, id@) is Some,
            removed(old(self)@, final(self)@, id@),
    {
        let ghost pre = self@;
        let mut i: usize = 0;
        while i < self.entries.len()
            invariant
                pre == self@,
                pre == snaps_view(self.entries@),
                pre == old(self)@,
                ids_sorted(pre),
                i <= pre.len(),
                forall|k: int| 0 <= k < i ==> #[trigger] pre[k].peer_id != id@,
            decreases self.entries.len() - i,
        {
            if str_eq(self.entries[i].peer_id.as_str(), id) {
                proof {
                    lemma_lookup(pre, i as int);
                }
                self.entries.remove(i);
                let ghost post = self@;
                proof {
                    assert(post =~= pre.remove(i as int));
                    assert forall|a: int, b: int| 0 <= a < b < post.len() implies lex_lt(
                        #[trigger] post[a].peer_id,
                        #[trigger] post[b].peer_id,
                    ) by {
                        if b < i {
                            assert(post[a] == pre[a] && post[b] == pre[b]);
                        } else if a < i {
                            assert(post[a] == pre[a] && post[b] == pre[b + 1]);
                        } else {
                            assert(post[a] == pre[a + 1] && post[b] == pre[b + 1]);
                        }
                    }
                    assert forall|k: Seq<char>| #[trigger]
                        lookup(post, k) == (if k == id@ {
                            None
                        } else {
                            lookup(pre, k)
                        }) by {
                        if exists|j: int| 0 <= j < post.len() && #[trigger] post[j].peer_id == k {
                            let j = choose|j: int|
                                0 <= j < post.len() && #[trigger] post[j].peer_id == k;
                            lemma_lookup(post, j);
                            if j < i {
                                assert(post[j] == pre[j]);
                                lemma_lookup(pre, j);
                                if k == id@ {
                                    assert(lex_lt(pre[j].peer_id, pre[i as int].peer_id));
                                    lemma_lex_irrefl(k);
                                }
                            } else {
                                assert(post[j] == pre[j + 1]);
                                lemma_lookup(pre, j + 1);
                                if k == id@ {
                                    assert(lex_lt(pre[i as int].peer_id, pre[j + 1].peer_id));
                                    lemma_lex_irrefl(k);
                                }
                            }
                        } else if k != id@ {
                            assert forall|j: int| 0 <= j < pre.len() implies #[trigger] pre[j].peer_id
                                != k by {
                                if j < i {
                                    assert(post[j] == pre[j]);
                                } else if j > i {
                                    assert(post[j - 1] == pre[j]);
                                }
                            }
                        }
                    }
                }
                return true;
            }
            i += 1;
        }
        proof {
            assert forall|k: Seq<char>| #[trigger]
                lookup(pre, k) == (if k == id@ {
                    None
                } else {
                    lookup(pre, k)
                }) by {}
        }
        false
    }

    /// The peers, in id order.
    pub fn to_list(&self) -> (r: Vec<PeerSnapshot>)
        ensures
            snaps_view(r@) == self@,
    {
        let mut out: Vec<PeerSnapshot> = Vec::new();
        let mut i: usize = 0;
        while i < self.entries.len()
            invariant
                i <= self.entries@.len(),
                snaps_view(out@) == snaps_view(self.entries@.take(i as int)),
            decreases self.entries.len() - i,
        {
            let ghost before = snaps_view(out@);
            let d = self.entries[i].duplicate();
            out.push(d);
            assert(snaps_view(out@) =~= before.push(self.entries@[i as int]@));
            assert(self.entries@.take(i + 1) =~= self.entries@.take(i as int).push(
                self.entries@[i as int],
            ));
            assert(snaps_view(out@) =~= snaps_view(self.entries@.take(i + 1)));
            i += 1;
        }
        assert(self.entries@.take(self.entries@.len() as int) =~= self.entries@);
        out
    }
}

/// The peers of a `room_snapshot`: each id with the last listed peer that
/// has it.
pub open spec fn snapshot_lookup(items: Seq<PeerMessage>, k: Seq<char>) -> Option<PeerSnapshotV>
    decreases items.len(),
{
    if items.len() == 0 {
        None
    } else {
        match peer_spec(items.last()) {
            Some(p) => if p.peer_id == k {
                Some(p)
            } else {
                snapshot_lookup(items.drop_last(), k)
            },
            None => snapshot_lookup(items.drop_last(), k),
        }
    }
}

pub open spec fn is_peer_update_type(t: Seq<char>) -> bool {
    t == "peer_joined"@ || t == "peer_state"@ || t == "peer_action"@ || t == "peer_sprite_changed"@
}

/// What a server message does to the table, and whether it changed it:
/// a `room_snapshot` replaces the table; `peer_left` forgets the peer;
/// `peer_joined`, `peer_state`, `peer_action` and `peer_sprite_changed`
/// merge the update into the peer (see [`merge_spec`]); anything else is
/// ignored.
pub open spec fn incoming_spec(
    old: Seq<PeerSnapshotV>,
    msg: IncomingMessage,
    new: Seq<PeerSnapshotV>,
    changed: bool,
) -> bool {
    let t = text_or_empty(msg.msg_type);
    if t == "room_snapshot"@ {
        &&& changed
        &&& forall|k: Seq<char>|
            #[trigger] lookup(new, k) == match msg.peers {
                Some(items) => snapshot_lookup(items@, k),
                None => None,
            }
    } else if t == "peer_left"@ {
        match msg.peer.peer_id {
            JsonText::Text(id) => changed == lookup(old, id@) is Some && removed(old, new, id@),
            _ => !changed && new == old,
        }
    } else if is_peer_update_type(t) {
        match msg.peer.peer_id {
            JsonText::Text(id) => match merge_spec(lookup(old, id@), msg.peer) {
                Some(p) => changed && upserted(old, new, p),
                None => !changed && new == old,
            },
            _ => !changed && new == old,
        }
    } else {
        !changed && new == old
    }
}

fn is_peer_update_type_exec(t: &str) -> (r: bool)
    ensures
        r == is_peer_update_type(t@),
{
    str_eq(t, "peer_joined") || str_eq(t, "peer_state") || str_eq(t, "peer_action") || str_eq(
        t,
        "peer_sprite_changed",
    )
}

/// Applies a server message to the table of peers; returns whether it
/// changed (the caller then publishes the peers and syncs their windows).
pub fn handle_incoming(peers: &mut PeerTable, msg: IncomingMessage) -> (changed: bool)
    requires
        old(peers).wf(),
    ensures
        final(peers).wf(),
        incoming_spec(old(peers)@, msg, final(peers)@, changed),
{
    let t = text_of(&msg.msg_type);
    if str_eq(t.as_str(), "room_snapshot") {
        peers.clear();
        match &msg.peers {
            Some(items) => {
                let mut i: usize = 0;
                while i < items.len()
                    invariant
                        i <= items@.len(),
                        peers.wf(),
                        forall|k: Seq<char>|
                            #[trigger] lookup(peers@, k) == snapshot_lookup(
                                items@.take(i as int),
                                k,
                            ),
                    decreases items.len() - i,
                {
                    let ghost t0 = items@.take(i as int);
                    let ghost t1 = items@.take(i + 1);
                    proof {
                        assert(t1.drop_last() =~= t0);
                        assert(t1.last() == items@[i as int]);
                    }
                    let ghost before = peers@;
                    match peer_from_message(&items[i]) {
                        Some(p) => {
                            peers.upsert(p);
                        },
                        None => {},
                    }
                    proof {
                        assert forall|k: Seq<char>| #[trigger]
                            lookup(peers@, k) == snapshot_lookup(t1, k) by {
                            assert(lookup(before, k) == snapshot_lookup(t0, k));
                        }
                    }
                    i += 1;
                }
                assert(items@.take(items@.len() as int) =~= items@);
            },
            None => {
                proof {
                    assert forall|k: Seq<char>| #[trigger] lookup(peers@, k) == None::<PeerSnapshotV> by {}
                }
            },
        }
        return true;
    }
    if str_eq(t.as_str(), "peer_left") {
        return match &msg.peer.peer_id {
            JsonText::Text(id) => peers.remove(id.as_str()),
            _ => false,
        };
    }
    if is_peer_update_type_exec(t.as_str()) {
        return match &msg.peer.peer_id {
            JsonText::Text(id) => {
                let updated = merge_peer_update(peers.get(id.as_str()), &msg.peer);
                match updated {
                    Some(p) => {
                        peers.upsert(p);
                        true
                    },
                    None => false,
                }
            },
            _ => false,
        };
    }
    false
}

// ---------------------------------------------------------------------------
// the websocket URL
// ---------------------------------------------------------------------------

/// The parts of a parsed URL the websocket URL is built from.
#[derive(Debug, Clone)]
pub struct UrlParts {
    /// Lower-cased, without `:`.
    pub scheme: String,
    pub host: Option<String>,
    /// `None` when absent or the scheme's default.
    pub port: Option<u16>,
    pub path: String,
    /// The `/`-separated segments of the path; `None` for a URL that cannot
    /// be a base.
    pub segments: Option<Vec<String>>,
}

pub struct UrlPartsV {
    pub scheme: Seq<char>,
    pub host: Option<Seq<char>>,
    pub port: Option<u16>,
    pub path: Seq<char>,
    pub segments: Option<Seq<Seq<char>>>,
}

pub open spec fn strings_view(v: Seq<String>) -> Seq<Seq<char>> {
    v.map_values(|s: String| s@)
}

pub open spec fn url_parts_view(p: UrlParts) -> UrlPartsV {
    UrlPartsV {
        scheme: p.scheme@,
        host: opt_view(p.host),
        port: p.port,
        path: p.path@,
        segments: match p.segments {
            Some(v) => Some(strings_view(v@)),
            None => None,
        },
    }
}

pub open spec fn str_result_view(r: Result<String, String>) -> Result<Seq<char>, Seq<char>> {
    match r {
        Ok(s) => Ok(s@),
        Err(e) => Err(e@),
    }
}

/// What `url::Url::parse` makes of a string: its scheme, host, port, path
/// and path segments, or the text of the parse error.
pub uninterp spec fn parsed_url(s: Seq<char>) -> Result<UrlPartsV, Seq<char>>;

/// `url::Url::parse`, with the parsed URL taken apart by `scheme`,
/// `host_str`, `port`, `path` and `path_segments` and a parse error turned
/// into its text. The contract names the result and says nothing more of it.
#[verifier::external_body]
pub(crate) fn parse_url(s: &str) -> (r: Result<UrlParts, String>)
    ensures
        match r {
            Ok(p) => parsed_url(s@) == Ok::<UrlPartsV, Seq<char>>(url_parts_view(p)),
            Err(e) => parsed_url(s@) == Err::<UrlPartsV, Seq<char>>(e@),
        },
{
    match url::Url::parse(s) {
        Ok(u) => Ok(
            UrlParts {
                scheme: u.scheme().to_string(),
                host: u.host_str().map(|h| h.to_string()),
                port: u.port(),
                path: u.path().to_string(),
                segments: u.path_segments().map(|it| it.map(|seg| seg.to_string()).collect()),
            },
        ),
        Err(e) => Err(e.to_string()),
    }
}

pub open spec fn pairs_view(v: Seq<(String, String)>) -> Seq<(Seq<char>, Seq<char>)> {
    v.map_values(|p: (String, String)| (p.0@, p.1@))
}

/// The serialization of the URL `url::Url::parse` makes of `base` once the
/// pairs are appended to its query, or the text of the parse error.
pub uninterp spec fn url_with_query(base: Seq<char>, pairs: Seq<(Seq<char>, Seq<char>)>) -> Result<
    Seq<char>,
    Seq<char>,
>;

/// `url::Url::parse` of `base`, then `append_pair` of each pair on its
/// `query_pairs_mut` (form-urlencoded), then the URL as a string. The
/// contract names the result and says nothing more of it.
#[verifier::external_body]
fn serialize_with_query(base: &str, pairs: &Vec<(String, String)>) -> (r: Result<String, String>)
    ensures
        str_result_view(r) == url_with_query(base@, pairs_view(pairs@)),
{
    let mut url = match url::Url::parse(base) {
        Ok(u) => u,
        Err(e) => return Err(e.to_string()),
    };
    {
        let mut query = url.query_pairs_mut();
        for (name, value) in pairs.iter() {
            query.append_pair(name, value);
        }
    }
    Ok(url.into())
}

/// `ws://host[:port]<path without trailing slashes>/ws`, with `wss` for an
/// `https` server.
pub open spec fn ws_base_spec(scheme: Seq<char>, host: Seq<char>, port: Option<u16>, path: Seq<char>) -> Seq<char> {
    (if scheme == "https"@ {
        "wss"@
    } else {
        "ws"@
    }) + "://"@ + host + (match port {
        Some(p) => ":"@ + decimal(p as nat),
        None => Seq::empty(),
    }) + trim_end_char(path, '/') + "/ws"@
}

/// The websocket endpoint of a server, from the parts of its URL; a URL
/// without a host is refused.
pub fn ws_base_url(parts: &UrlParts) -> (r: Result<String, String>)
    ensures
        match parts.host {
            Some(h) => r matches Ok(s) && s@ == ws_base_spec(parts.scheme@, h@, parts.port, parts.path@),
            None => r matches Err(e) && e@ == "server_url is missing host"@,
        },
{
    let host = match &parts.host {
        Some(h) => h,
        None => {
            return Err(owned("server_url is missing host"));
        },
    };
    let mut s = if str_eq(parts.scheme.as_str(), "https") {
        owned("wss")
    } else {
        owned("ws")
    };
    push_str(&mut s, "://");
    push_str(&mut s, host.as_str());
    match parts.port {
        Some(p) => {
            push_str(&mut s, ":");
            let d = decimal_exec(p as u64);
            push_str(&mut s, d.as_str());
        },
        None => {},
    }
    let prefix = trim_end_matches_char(parts.path.as_str(), '/');
    push_str(&mut s, prefix.as_str());
    push_str(&mut s, "/ws");
    Ok(s)
}

pub open spec fn ws_query_spec(cfg: RemoteConfig, device_id: Seq<char>, sprite: Seq<char>) -> Seq<
    (Seq<char>, Seq<char>),
> {
    seq![
        ("device_id"@, device_id),
        ("mode"@, cfg.mode@),
        ("room"@, cfg.room@),
        ("sprite"@, sprite),
    ]
}

/// The query of the websocket URL: the device, the matching mode, the
/// room and the pet announced.
pub fn ws_query(cfg: &RemoteConfig, device_id: &str, sprite: &str) -> (r: Vec<(String, String)>)
    ensures
        pairs_view(r@) == ws_query_spec(*cfg, device_id@, sprite@),
{
    let mut v: Vec<(String, String)> = Vec::new();
    v.push((owned("device_id"), owned(device_id)));
    v.push((owned("mode"), cfg.mode.clone()));
    v.push((owned("room"), cfg.room.clone()));
    v.push((owned("sprite"), owned(sprite)));
    assert(pairs_view(v@) =~= ws_query_spec(*cfg, device_id@, sprite@));
    v
}

pub open spec fn ws_url_spec(cfg: RemoteConfig, device_id: Seq<char>, sprite: Seq<char>) -> Result<
    Seq<char>,
    Seq<char>,
> {
    match parsed_url(cfg.server_url@) {
        Err(e) => Err(e),
        Ok(p) => match p.host {
            None => Err("server_url is missing host"@),
            Some(h) => url_with_query(
                ws_base_spec(p.scheme, h, p.port, p.path),
                ws_query_spec(cfg, device_id, sprite),
            ),
        },
    }
}

/// The websocket URL for the configured server, device and pet.
pub fn build_ws_url(cfg: &RemoteConfig, device_id: &str, sprite: &str) -> (r: Result<
    String,
    String,
>)
    ensures
        str_result_view(r) == ws_url_spec(*cfg, device_id@, sprite@),
{
    let parts = match parse_url(cfg.server_url.as_str()) {
        Ok(p) => p,
        Err(e) => {
            return Err(e);
        },
    };
    let base = match ws_base_url(&parts) {
        Ok(b) => b,
        Err(e) => {
            return Err(e);
        },
    };
    let pairs = ws_query(cfg, device_id, sprite);
    serialize_with_query(base.as_str(), &pairs)
}

// ---------------------------------------------------------------------------
// the connection actor
// ---------------------------------------------------------------------------

pub const RECONNECT_INITIAL_MS: u64 = 2000;

pub const RECONNECT_MAX_MS: u64 = 60000;

pub const HEARTBEAT_MS: u64 = 20000;

pub const POLL_INTERVAL_MS: u64 = 200;

/// How long to wait after a failure that retrying cannot fix.
pub const PERMANENT_WAIT_MS: u64 = 60000;

/// How long to wait when `client.json` cannot be read before connecting.
pub const CLIENT_RETRY_MS: u64 = 2000;

/// The next reconnect delay: doubled, at most a minute.
pub open spec fn backoff(d: u64) -> u64 {
    if d * 2 < RECONNECT_MAX_MS {
        (d * 2) as u64
    } else {
        RECONNECT_MAX_MS
    }
}

/// A message sent to the server.
#[derive(Debug, Clone)]
pub enum Outgoing {
    /// Announces the pet now shown (after a pet swap or a connect).
    Sprite { sprite: String, state: String },
    /// Reports the animation state (on change, and as the heartbeat).
    State { state: String, sprite: String },
}

/// What the actor asks its runner to do next.
#[derive(Debug, Clone)]
pub enum ActorCommand {
    /// Close every peer window and end.
    Stop,
    /// Wait this many milliseconds, then start the next tick.
    Sleep(u64),
    /// Start the next tick now.
    Tick,
    /// Read the device id from `client.json`; answer with `on_device_id`.
    ReadDeviceId,
    /// Make sure the server has the pet; answer with `on_uploaded`.
    Upload { server_url: String, device_id: String, sprite: String },
    /// Open the websocket at this URL; answer with `on_connected`.
    Connect(String),
    /// Send this message; answer with `on_sent`.
    Send(Outgoing),
    /// Wait up to the poll interval for a message; answer with `on_received`.
    Receive,
}

/// One decision of the actor: close the websocket first when asked, then
/// publish the peers (and sync their windows) when they changed, then
/// publish the statuses in order, then carry out the command.
pub struct ActorOutput {
    pub close_session: bool,
    pub peers_changed: bool,
    pub statuses: Vec<RemoteStatus>,
    pub command: ActorCommand,
}

#[derive(Debug, Clone, Copy, PartialEq, Eq, Structural)]
pub enum ActorPhase {
    /// Waiting for the next tick.
    Ready,
    AwaitDevice,
    AwaitUpload,
    AwaitConnect,
    /// Reading the device id to upload a swapped pet while connected.
    AwaitMidDevice,
    AwaitMidUpload,
    AwaitSend,
    AwaitReceive,
    Stopped,
}

/// The state of the task that owns the websocket: it follows
/// `remote.json` and `state.json`, connects (uploading the pet first),
/// announces the pet and its state, keeps the table of peers, and backs off
/// between attempts.
pub struct RemoteActor {
    /// The configuration signature the connection was made for.
    pub signature: String,
    /// Whether a websocket session is open.
    pub connected: bool,
    pub peers: PeerTable,
    /// The pet and animation state last read from `state.json`.
    pub last_pet: String,
    pub last_state: String,
    pub pending_sprite_announce: bool,
    pub pending_state_sync: bool,
    /// When the next heartbeat is due (milliseconds of the runner's clock).
    pub next_heartbeat_ms: Option<u64>,
    pub reconnect_delay_ms: u64,
    /// The last status published.
    pub last_status: Option<RemoteStatus>,
    /// The pet last uploaded to the configured server.
    pub last_uploaded_sprite: String,
    /// The configuration and pet of the current tick.
    pub cfg: RemoteConfig,
    pub current_sprite: String,
    pub device_id: String,
    pub phase: ActorPhase,
    /// Whether the message being sent announces the pet.
    pub sending_sprite: bool,
}

pub open spec fn phase_needs_session(p: ActorPhase) -> bool {
    p == ActorPhase::AwaitMidDevice || p == ActorPhase::AwaitMidUpload || p == ActorPhase::AwaitSend
        || p == ActorPhase::AwaitReceive
}

pub open spec fn phase_without_session(p: ActorPhase) -> bool {
    p == ActorPhase::AwaitDevice || p == ActorPhase::AwaitUpload || p == ActorPhase::AwaitConnect
        || p == ActorPhase::Stopped
}

pub open spec fn heartbeat_due(next: Option<u64>, now: u64) -> bool {
    match next {
        Some(t) => now >= t,
        None => false,
    }
}

/// `s` was published after `old_last` (and `new_last` is the last published
/// status) when it differs from `old_last`; otherwise nothing was.
pub open spec fn publishes(
    old_last: Option<RemoteStatus>,
    new_last: Option<RemoteStatus>,
    out: Seq<RemoteStatus>,
    cfg: RemoteConfig,
    sprite: Seq<char>,
    connected: bool,
    reconnecting: bool,
    error: Seq<char>,
) -> bool {
    if old_last matches Some(l) && status_is(l, cfg, sprite, connected, reconnecting, error) {
        out.len() == 0 && new_last == old_last
    } else {
        out.len() == 1 && status_is(out[0], cfg, sprite, connected, reconnecting, error) && new_last
            == Some(out[0])
    }
}

/// The message sent next on an open connection, or waiting for one.
pub open spec fn outbound_ok(a: RemoteActor, now: u64, cmd: ActorCommand) -> bool {
    if a.pending_sprite_announce {
        &&& cmd matches ActorCommand::Send(Outgoing::Sprite { sprite, state }) && sprite@
            == a.last_pet@ && state@ == a.last_state@
        &&& a.phase == ActorPhase::AwaitSend
        &&& a.sending_sprite
    } else if a.pending_state_sync || heartbeat_due(a.next_heartbeat_ms, now) {
        &&& cmd matches ActorCommand::Send(Outgoing::State { state, sprite }) && sprite@
            == a.last_pet@ && state@ == a.last_state@
        &&& a.phase == ActorPhase::AwaitSend
        &&& !a.sending_sprite
    } else {
        &&& cmd is Receive
        &&& a.phase == ActorPhase::AwaitReceive
    }
}

/// A pet swapped while connected is uploaded before it is announced.
pub open spec fn needs_mid_upload(a: RemoteActor) -> bool {
    a.pending_sprite_announce && a.current_sprite@.len() > 0 && a.current_sprite@
        != a.last_uploaded_sprite@
}

pub open spec fn session_step_ok(a: RemoteActor, now: u64, cmd: ActorCommand) -> bool {
    if needs_mid_upload(a) {
        cmd is ReadDeviceId && a.phase == ActorPhase::AwaitMidDevice
    } else {
        outbound_ok(a, now, cmd)
    }
}

/// A failed attempt waits a minute when retrying cannot help; otherwise it
/// waits the reconnect delay and doubles it (up to a minute).
pub open spec fn waits_after_failure(old: RemoteActor, new: RemoteActor, cmd: ActorCommand, retry: bool) -> bool {
    if retry {
        cmd == ActorCommand::Sleep(old.reconnect_delay_ms) && new.reconnect_delay_ms == backoff(
            old.reconnect_delay_ms,
        )
    } else {
        cmd == ActorCommand::Sleep(PERMANENT_WAIT_MS) && new.reconnect_delay_ms
            == old.reconnect_delay_ms
    }
}

impl RemoteActor {
    pub open spec fn wf(&self) -> bool {
        &&& RECONNECT_INITIAL_MS <= self.reconnect_delay_ms <= RECONNECT_MAX_MS
        &&& self.peers.wf()
        &&& !self.connected ==> self.peers@.len() == 0
        &&& phase_needs_session(self.phase) ==> self.connected
        &&& phase_without_session(self.phase) ==> !self.connected
    }

    /// The actor before its first tick, with the pet and state read from
    /// `state.json` (none and `idle` when it could not be read).
    pub fn new(initial: Option<(String, String)>) -> (r: Self)
        ensures
            r.wf(),
            r.phase == ActorPhase::Ready,
            !r.connected,
            r.signature@.len() == 0,
            r.last_status is None,
            r.reconnect_delay_ms == RECONNECT_INITIAL_MS,
            !r.pending_sprite_announce,
            !r.pending_state_sync,
            r.next_heartbeat_ms is None,
            match initial {
                Some((p, st)) => r.last_pet == p && r.last_state == st,
                None => r.last_pet@.len() == 0 && r.last_state@ == "idle"@,
            },
    {
        let (last_pet, last_state) = match initial {
            Some((p, st)) => (p, st),
            None => (String::new(), owned("idle")),
        };
        RemoteActor {
            signature: String::new(),
            connected: false,
            peers: PeerTable::new(),
            last_pet,
            last_state,
            pending_sprite_announce: false,
            pending_state_sync: false,
            next_heartbeat_ms: None,
            reconnect_delay_ms: RECONNECT_INITIAL_MS,
            last_status: None,
            last_uploaded_sprite: String::new(),
            cfg: RemoteConfig {
                server_url: String::new(),
                enabled: false,
                mode: owned("random"),
                room: String::new(),
                room_limit: DEFAULT_ROOM_LIMIT,
                session_nonce: 0,
            },
            current_sprite: String::new(),
            device_id: String::new(),
            phase: ActorPhase::Ready,
            sending_sprite: false,
        }
    }

    /// Publishes `st` unless it is the status last published.
    fn publish(&mut self, out: &mut Vec<RemoteStatus>, st: RemoteStatus)
        ensures
            *final(self) == (RemoteActor { last_status: final(self).last_status, ..*old(self) }),
            (old(self).last_status matches Some(l) && same_status(l, st)) ==> final(out)@ == old(
                out,
            )@ && final(self).last_status == old(self).last_status,
            !(old(self).last_status matches Some(l) && same_status(l, st)) ==> final(out)@ == old(
                out,
            )@.push(st) && final(self).last_status == Some(st),
    {
        let same = match &self.last_status {
            Some(l) => same_status_exec(l, &st),
            None => false,
        };
        if !same {
            out.push(st.clone_status());
            self.last_status = Some(st);
        }
    }

    fn fail_wait(&mut self, retry: bool) -> (r: ActorCommand)
        requires
            old(self).wf(),
        ensures
            waits_after_failure(*old(self), *final(self), r, retry),
            *final(self) == (RemoteActor {
                reconnect_delay_ms: final(self).reconnect_delay_ms,
                ..*old(self)
            }),
            final(self).wf(),
    {
        if retry {
            let d = self.reconnect_delay_ms;
            self.reconnect_delay_ms = if d * 2 < RECONNECT_MAX_MS {
                d * 2
            } else {
                RECONNECT_MAX_MS
            };
            ActorCommand::Sleep(d)
        } else {
            ActorCommand::Sleep(PERMANENT_WAIT_MS)
        }
    }

    /// The next step on an open connection: upload a swapped pet, send what
    /// is pending (or the heartbeat when due), or wait for a message.
    fn session_step(&mut self, now_ms: u64) -> (r: ActorCommand)
        requires
            old(self).wf(),
            old(self).connected,
        ensures
            session_step_ok(*final(self), now_ms, r),
            *final(self) == (RemoteActor {
                phase: final(self).phase,
                sending_sprite: final(self).sending_sprite,
                ..*old(self)
            }),
            final(self).wf(),
    {
        if self.pending_sprite_announce && !self.current_sprite.as_str().is_empty() && !str_eq(
            self.current_sprite.as_str(),
            self.last_uploaded_sprite.as_str(),
        ) {
            self.phase = ActorPhase::AwaitMidDevice;
            return ActorCommand::ReadDeviceId;
        }
        let due = match self.next_heartbeat_ms {
            Some(t) => now_ms >= t,
            None => false,
        };
        if self.pending_sprite_announce {
            self.phase = ActorPhase::AwaitSend;
            self.sending_sprite = true;
            ActorCommand::Send(
                Outgoing::Sprite { sprite: self.last_pet.clone(), state: self.last_state.clone() },
            )
        } else if self.pending_state_sync || due {
            self.phase = ActorPhase::AwaitSend;
            self.sending_sprite = false;
            ActorCommand::Send(
                Outgoing::State { state: self.last_state.clone(), sprite: self.last_pet.clone() },
            )
        } else {
            self.phase = ActorPhase::AwaitReceive;
            ActorCommand::Receive
        }
    }
}

impl RemoteStatus {
    pub fn clone_status(&self) -> (r: Self)
        ensures
            r == *self,
    {
        RemoteStatus {
            enabled: self.enabled,
            connected: self.connected,
            reconnecting: self.reconnecting,
            error: self.error.clone(),
            server_url: self.server_url.clone(),
            mode: self.mode.clone(),
            room: self.room.clone(),
            sprite: self.sprite.clone(),
        }
    }
}

/// The empty error text, trimmed, is empty.
proof fn lemma_empty_error()
    ensures
        ""@ == Seq::<char>::empty(),
        trim_seq(Seq::<char>::empty()) == Seq::<char>::empty(),
{
    reveal_strlit("");
    assert(trim_seq(Seq::<char>::empty()) == Seq::<char>::empty());
}

pub open spec fn tick_spec(
    old: RemoteActor,
    shutdown: bool,
    cfg: RemoteConfig,
    state: Option<(String, String)>,
    leave_requested: bool,
    now: u64,
    new: RemoteActor,
    out: ActorOutput,
) -> bool {
    if shutdown {
        &&& out.command is Stop
        &&& out.close_session == old.connected
        &&& !out.peers_changed
        &&& out.statuses@.len() == 0
        &&& new.phase == ActorPhase::Stopped
    } else {
        let pet = match state {
            Some((p, _)) => p@,
            None => old.last_pet@,
        };
        let st = match state {
            Some((_, x)) => x@,
            None => old.last_state@,
        };
        let swapped = state is Some && pet != old.last_pet@;
        let restated = state is Some && !swapped && st != old.last_state@;
        let changed = signature_spec(cfg) != old.signature@;
        let reset = changed || (cfg.enabled && leave_requested);
        &&& new.last_pet@ == pet
        &&& new.last_state@ == st
        &&& new.current_sprite@ == pet
        &&& new.pending_sprite_announce == (old.pending_sprite_announce || swapped)
        &&& new.pending_state_sync == (old.pending_state_sync || restated)
        &&& new.cfg == cfg
        &&& new.signature@ == signature_spec(cfg)
        &&& out.close_session == (old.connected && reset)
        &&& out.peers_changed == reset
        &&& new.connected == (old.connected && !reset)
        &&& (if reset {
            new.peers@.len() == 0
        } else {
            new.peers@ == old.peers@
        })
        &&& new.reconnect_delay_ms == (if changed {
            RECONNECT_INITIAL_MS
        } else {
            old.reconnect_delay_ms
        })
        &&& new.last_uploaded_sprite@ == (if changed {
            Seq::empty()
        } else {
            old.last_uploaded_sprite@
        })
        &&& new.next_heartbeat_ms == old.next_heartbeat_ms
        &&& (if changed {
            publishes(
                old.last_status,
                new.last_status,
                out.statuses@,
                cfg,
                pet,
                false,
                cfg.enabled,
                Seq::empty(),
            )
        } else if cfg.enabled && leave_requested {
            publishes(old.last_status, new.last_status, out.statuses@, cfg, pet, false, true, Seq::empty())
        } else {
            out.statuses@.len() == 0 && new.last_status == old.last_status
        })
        &&& (if !cfg.enabled {
            out.command == ActorCommand::Sleep(POLL_INTERVAL_MS) && new.phase == ActorPhase::Ready
        } else if !new.connected {
            out.command is ReadDeviceId && new.phase == ActorPhase::AwaitDevice
        } else {
            session_step_ok(new, now, out.command)
        })
    }
}

impl RemoteActor {
    /// The start of a tick: `shutdown` says whether the app is quitting,
    /// `cfg` is `remote.json` as read, `state` the pet and animation state
    /// of `state.json` when it could be read, `leave_requested` whether the
    /// menu asked to leave the room (the request is consumed either way).
    pub fn on_tick(
        &mut self,
        shutdown: bool,
        cfg: RemoteConfig,
        state: Option<(String, String)>,
        leave_requested: bool,
        now_ms: u64,
    ) -> (out: ActorOutput)
        requires
            old(self).wf(),
            old(self).phase == ActorPhase::Ready,
        ensures
            final(self).wf(),
            tick_spec(*old(self), shutdown, cfg, state, leave_requested, now_ms, *final(self), out),
    {
        proof {
            lemma_empty_error();
        }
        let mut statuses: Vec<RemoteStatus> = Vec::new();
        if shutdown {
            let close = self.connected;
            self.connected = false;
            self.peers.clear();
            self.phase = ActorPhase::Stopped;
            return ActorOutput {
                close_session: close,
                peers_changed: false,
                statuses,
                command: ActorCommand::Stop,
            };
        }
        match state {
            Some((pet, st)) => {
                if !str_eq(pet.as_str(), self.last_pet.as_str()) {
                    self.pending_sprite_announce = true;
                } else if !str_eq(st.as_str(), self.last_state.as_str()) {
                    self.pending_state_sync = true;
                }
                self.last_pet = pet;
                self.last_state = st;
            },
            None => {},
        }
        self.current_sprite = self.last_pet.clone();
        let sig = config_signature(&cfg);
        let enabled = cfg.enabled;
        self.cfg = cfg;
        let mut close = false;
        let mut peers_changed = false;
        if !str_eq(sig.as_str(), self.signature.as_str()) {
            if self.connected {
                close = true;
                self.connected = false;
            }
            self.peers.clear();
            peers_changed = true;
            self.signature = sig;
            self.reconnect_delay_ms = RECONNECT_INITIAL_MS;
            self.last_uploaded_sprite = String::new();
            let st = build_status(&self.cfg, self.current_sprite.as_str(), false, enabled, "");
            self.publish(&mut statuses, st);
            if !enabled {
                self.phase = ActorPhase::Ready;
                return ActorOutput {
                    close_session: close,
                    peers_changed,
                    statuses,
                    command: ActorCommand::Sleep(POLL_INTERVAL_MS),
                };
            }
        } else {
            self.signature = sig;
        }
        if !enabled {
            self.phase = ActorPhase::Ready;
            return ActorOutput {
                close_session: close,
                peers_changed,
                statuses,
                command: ActorCommand::Sleep(POLL_INTERVAL_MS),
            };
        }
        if leave_requested {
            if self.connected {
                close = true;
                self.connected = false;
            }
            self.peers.clear();
            peers_changed = true;
            let st = build_status(&self.cfg, self.current_sprite.as_str(), false, true, "");
            self.publish(&mut statuses, st);
        }
        if !self.connected {
            self.phase = ActorPhase::AwaitDevice;
            return ActorOutput {
                close_session: close,
                peers_changed,
                statuses,
                command: ActorCommand::ReadDeviceId,
            };
        }
        let command = self.session_step(now_ms);
        ActorOutput { close_session: close, peers_changed, statuses, command }
    }
}

pub open spec fn no_pet_message() -> Seq<char> {
    "no pet configured (run: eggs pet <id>)"@
}

/// What the actor asks for after connecting or after a pet was uploaded.
pub open spec fn upload_requested(a: RemoteActor, cmd: ActorCommand) -> bool {
    cmd matches ActorCommand::Upload { server_url, device_id, sprite } && server_url@
        == a.cfg.server_url@ && device_id@ == a.device_id@ && sprite@ == a.current_sprite@
}

/// A failed connect: a minute's wait when the error is permanent, else the
/// reconnect delay; the status says whether it will be retried.
pub open spec fn connect_failed_spec(old: RemoteActor, e: Seq<char>, new: RemoteActor, out: ActorOutput) -> bool {
    let permanent = permanent_text(lowercase(e));
    &&& publishes(
        old.last_status,
        new.last_status,
        out.statuses@,
        old.cfg,
        old.current_sprite@,
        false,
        !permanent,
        e,
    )
    &&& waits_after_failure(old, new, out.command, !permanent)
    &&& new.phase == ActorPhase::Ready
    &&& !out.close_session
    &&& !out.peers_changed
}

impl RemoteActor {
    fn connect_failed(&mut self, e: String) -> (out: ActorOutput)
        requires
            old(self).wf(),
            !old(self).connected,
        ensures
            final(self).wf(),
            connect_failed_spec(*old(self), e@, *final(self), out),
            *final(self) == (RemoteActor {
                last_status: final(self).last_status,
                reconnect_delay_ms: final(self).reconnect_delay_ms,
                phase: final(self).phase,
                ..*old(self)
            }),
    {
        let permanent = is_permanent_error(e.as_str());
        let mut statuses: Vec<RemoteStatus> = Vec::new();
        let st = build_status(&self.cfg, self.current_sprite.as_str(), false, !permanent, e.as_str());
        self.publish(&mut statuses, st);
        self.phase = ActorPhase::Ready;
        let command = self.fail_wait(!permanent);
        ActorOutput { close_session: false, peers_changed: false, statuses, command }
    }

    /// The device id read from `client.json` (or the error reading it).
    /// Before connecting, an unreadable file or a missing pet is reported
    /// and waited out; otherwise the pet is uploaded. While connected, an
    /// unreadable file waits a poll interval.
    pub fn on_device_id(&mut self, result: Result<String, String>) -> (out: ActorOutput)
        requires
            old(self).wf(),
            old(self).phase == ActorPhase::AwaitDevice || old(self).phase
                == ActorPhase::AwaitMidDevice,
        ensures
            final(self).wf(),
            !out.close_session,
            !out.peers_changed,
            final(self).connected == old(self).connected,
            final(self).peers@ == old(self).peers@,
            final(self).reconnect_delay_ms == old(self).reconnect_delay_ms,
            old(self).phase == ActorPhase::AwaitDevice ==> match result {
                Err(e) => publishes(
                    old(self).last_status,
                    final(self).last_status,
                    out.statuses@,
                    old(self).cfg,
                    old(self).current_sprite@,
                    false,
                    false,
                    "client.json: "@ + e@,
                ) && out.command == ActorCommand::Sleep(CLIENT_RETRY_MS) && final(self).phase
                    == ActorPhase::Ready,
                Ok(d) => if old(self).current_sprite@.len() == 0 {
                    publishes(
                        old(self).last_status,
                        final(self).last_status,
                        out.statuses@,
                        old(self).cfg,
                        old(self).current_sprite@,
                        false,
                        false,
                        no_pet_message(),
                    ) && out.command == ActorCommand::Sleep(POLL_INTERVAL_MS) && final(self).phase
                        == ActorPhase::Ready
                } else {
                    &&& final(self).device_id == d
                    &&& upload_requested(*final(self), out.command)
                    &&& final(self).phase == ActorPhase::AwaitUpload
                    &&& out.statuses@.len() == 0
                },
            },
            old(self).phase == ActorPhase::AwaitMidDevice ==> out.statuses@.len() == 0 && match result {
                Err(_) => out.command == ActorCommand::Sleep(POLL_INTERVAL_MS) && final(self).phase
                    == ActorPhase::Ready,
                Ok(d) => final(self).device_id == d && upload_requested(*final(self), out.command)
                    && final(self).phase == ActorPhase::AwaitMidUpload,
            },
    {
        let mut statuses: Vec<RemoteStatus> = Vec::new();
        if self.phase == ActorPhase::AwaitDevice {
            match result {
                Err(e) => {
                    let mut msg = owned("client.json: ");
                    push_str(&mut msg, e.as_str());
                    let st = build_status(
                        &self.cfg,
                        self.current_sprite.as_str(),
                        false,
                        false,
                        msg.as_str(),
                    );
                    self.publish(&mut statuses, st);
                    self.phase = ActorPhase::Ready;
                    ActorOutput {
                        close_session: false,
                        peers_changed: false,
                        statuses,
                        command: ActorCommand::Sleep(CLIENT_RETRY_MS),
                    }
                },
                Ok(d) => {
                    if self.current_sprite.as_str().is_empty() {
                        let st = build_status(
                            &self.cfg,
                            self.current_sprite.as_str(),
                            false,
                            false,
                            "no pet configured (run: eggs pet <id>)",
                        );
                        self.publish(&mut statuses, st);
                        self.phase = ActorPhase::Ready;
                        ActorOutput {
                            close_session: false,
                            peers_changed: false,
                            statuses,
                            command: ActorCommand::Sleep(POLL_INTERVAL_MS),
                        }
                    } else {
                        self.device_id = d;
                        self.phase = ActorPhase::AwaitUpload;
                        ActorOutput {
                            close_session: false,
                            peers_changed: false,
                            statuses,
                            command: ActorCommand::Upload {
                                server_url: self.cfg.server_url.clone(),
                                device_id: self.device_id.clone(),
                                sprite: self.current_sprite.clone(),
                            },
                        }
                    }
                },
            }
        } else {
            match result {
                Err(_) => {
                    self.phase = ActorPhase::Ready;
                    ActorOutput {
                        close_session: false,
                        peers_changed: false,
                        statuses,
                        command: ActorCommand::Sleep(POLL_INTERVAL_MS),
                    }
                },
                Ok(d) => {
                    self.device_id = d;
                    self.phase = ActorPhase::AwaitMidUpload;
                    ActorOutput {
                        close_session: false,
                        peers_changed: false,
                        statuses,
                        command: ActorCommand::Upload {
                            server_url: self.cfg.server_url.clone(),
                            device_id: self.device_id.clone(),
                            sprite: self.current_sprite.clone(),
                        },
                    }
                },
            }
        }
    }

    /// The result of making sure the server has the pet. Before connecting,
    /// success leads to the connect (a URL that cannot be built fails like a
    /// connect) and failure is reported and waited out. While connected,
    /// success leads to the announce; a failure that cannot be retried drops
    /// the announce.
    pub fn on_uploaded(&mut self, result: Result<(), UploadError>, now_ms: u64) -> (out: ActorOutput)
        requires
            old(self).wf(),
            old(self).phase == ActorPhase::AwaitUpload || old(self).phase
                == ActorPhase::AwaitMidUpload,
        ensures
            final(self).wf(),
            !out.close_session,
            !out.peers_changed,
            final(self).connected == old(self).connected,
            final(self).peers@ == old(self).peers@,
            result is Ok ==> final(self).last_uploaded_sprite@ == old(self).current_sprite@,
            old(self).phase == ActorPhase::AwaitUpload ==> match result {
                Ok(_) => match ws_url_spec(old(self).cfg, old(self).device_id@, old(self).current_sprite@) {
                    Ok(url) => out.command matches ActorCommand::Connect(u) && u@ == url
                        && final(self).phase == ActorPhase::AwaitConnect && out.statuses@.len() == 0
                        && final(self).last_status == old(self).last_status
                        && final(self).reconnect_delay_ms == old(self).reconnect_delay_ms,
                    Err(e) => connect_failed_spec(
                        RemoteActor { last_uploaded_sprite: final(self).last_uploaded_sprite, ..*old(self) },
                        e,
                        *final(self),
                        out,
                    ),
                },
                Err(e) => {
                    &&& publishes(
                        old(self).last_status,
                        final(self).last_status,
                        out.statuses@,
                        old(self).cfg,
                        old(self).current_sprite@,
                        false,
                        retryable_spec(e),
                        "pet upload failed: "@ + upload_error_text(e),
                    )
                    &&& waits_after_failure(*old(self), *final(self), out.command, retryable_spec(e))
                    &&& final(self).phase == ActorPhase::Ready
                },
            },
            old(self).phase == ActorPhase::AwaitMidUpload ==> match result {
                Ok(_) => {
                    &&& out.statuses@.len() == 0
                    &&& final(self).reconnect_delay_ms == old(self).reconnect_delay_ms
                    &&& final(self).pending_sprite_announce == old(self).pending_sprite_announce
                    &&& final(self).pending_state_sync == old(self).pending_state_sync
                    &&& final(self).last_pet == old(self).last_pet
                    &&& final(self).last_state == old(self).last_state
                    &&& final(self).next_heartbeat_ms == old(self).next_heartbeat_ms
                    &&& outbound_ok(*final(self), now_ms, out.command)
                },
                Err(e) => {
                    &&& publishes(
                        old(self).last_status,
                        final(self).last_status,
                        out.statuses@,
                        old(self).cfg,
                        old(self).current_sprite@,
                        true,
                        retryable_spec(e),
                        "pet upload failed: "@ + upload_error_text(e),
                    )
                    &&& final(self).phase == ActorPhase::Ready
                    &&& if retryable_spec(e) {
                        waits_after_failure(*old(self), *final(self), out.command, true)
                            && final(self).pending_sprite_announce
                            == old(self).pending_sprite_announce
                    } else {
                        out.command is Tick && !final(self).pending_sprite_announce
                            && final(self).reconnect_delay_ms == old(self).reconnect_delay_ms
                    }
                },
            },
    {
        let mut statuses: Vec<RemoteStatus> = Vec::new();
        let mid = self.phase == ActorPhase::AwaitMidUpload;
        match result {
            Ok(()) => {
                self.last_uploaded_sprite = self.current_sprite.clone();
                if !mid {
                    match build_ws_url(&self.cfg, self.device_id.as_str(), self.current_sprite.as_str()) {
                        Ok(url) => {
                            self.phase = ActorPhase::AwaitConnect;
                            ActorOutput {
                                close_session: false,
                                peers_changed: false,
                                statuses,
                                command: ActorCommand::Connect(url),
                            }
                        },
                        Err(e) => self.connect_failed(e),
                    }
                } else {
                    let command = self.session_step(now_ms);
                    ActorOutput { close_session: false, peers_changed: false, statuses, command }
                }
            },
            Err(e) => {
                let retry = e.is_retryable();
                let mut msg = owned("pet upload failed: ");
                let text = e.message();
                push_str(&mut msg, text.as_str());
                let st = build_status(
                    &self.cfg,
                    self.current_sprite.as_str(),
                    mid,
                    retry,
                    msg.as_str(),
                );
                self.publish(&mut statuses, st);
                self.phase = ActorPhase::Ready;
                if mid && !retry {
                    self.pending_sprite_announce = false;
                    return ActorOutput {
                        close_session: false,
                        peers_changed: false,
                        statuses,
                        command: ActorCommand::Tick,
                    };
                }
                let command = self.fail_wait(retry);
                ActorOutput { close_session: false, peers_changed: false, statuses, command }
            },
        }
    }

    /// The result of opening the websocket: once open, the pet and its
    /// state are announced right away and the reconnect delay is reset.
    pub fn on_connected(&mut self, result: Result<(), String>, now_ms: u64) -> (out: ActorOutput)
        requires
            old(self).wf(),
            old(self).phase == ActorPhase::AwaitConnect,
        ensures
            final(self).wf(),
            match result {
                Ok(_) => {
                    &&& final(self).connected
                    &&& final(self).pending_sprite_announce
                    &&& final(self).pending_state_sync
                    &&& final(self).next_heartbeat_ms == Some(now_ms)
                    &&& final(self).reconnect_delay_ms == RECONNECT_INITIAL_MS
                    &&& final(self).peers@ == old(self).peers@
                    &&& !out.close_session
                    &&& !out.peers_changed
                    &&& publishes(
                        old(self).last_status,
                        final(self).last_status,
                        out.statuses@,
                        old(self).cfg,
                        old(self).current_sprite@,
                        true,
                        false,
                        Seq::empty(),
                    )
                    &&& session_step_ok(*final(self), now_ms, out.command)
                },
                Err(e) => !final(self).connected && connect_failed_spec(*old(self), e@, *final(self), out),
            },
    {
        proof {
            lemma_empty_error();
        }
        match result {
            Ok(()) => {
                let mut statuses: Vec<RemoteStatus> = Vec::new();
                self.phase = ActorPhase::Ready;
                self.connected = true;
                self.pending_sprite_announce = true;
                self.pending_state_sync = true;
                self.next_heartbeat_ms = Some(now_ms);
                self.reconnect_delay_ms = RECONNECT_INITIAL_MS;
                let st = build_status(&self.cfg, self.current_sprite.as_str(), true, false, "");
                self.publish(&mut statuses, st);
                let command = self.session_step(now_ms);
                ActorOutput { close_session: false, peers_changed: false, statuses, command }
            },
            Err(e) => self.connect_failed(e),
        }
    }

    /// The result of sending: once sent, nothing is pending, the next
    /// heartbeat is due in 20 s, and a pet announce refreshes the status.
    pub fn on_sent(&mut self, result: Result<(), String>, now_ms: u64) -> (out: ActorOutput)
        requires
            old(self).wf(),
            old(self).phase == ActorPhase::AwaitSend,
            now_ms <= u64::MAX - HEARTBEAT_MS,
        ensures
            final(self).wf(),
            !out.close_session,
            !out.peers_changed,
            out.command is Receive,
            final(self).phase == ActorPhase::AwaitReceive,
            final(self).connected,
            final(self).peers@ == old(self).peers@,
            final(self).reconnect_delay_ms == old(self).reconnect_delay_ms,
            match result {
                Ok(_) => {
                    &&& !final(self).pending_sprite_announce
                    &&& !final(self).pending_state_sync
                    &&& final(self).next_heartbeat_ms == Some((now_ms + HEARTBEAT_MS) as u64)
                    &&& if old(self).sending_sprite {
                        publishes(
                            old(self).last_status,
                            final(self).last_status,
                            out.statuses@,
                            old(self).cfg,
                            old(self).current_sprite@,
                            true,
                            false,
                            Seq::empty(),
                        )
                    } else {
                        out.statuses@.len() == 0 && final(self).last_status == old(self).last_status
                    }
                },
                Err(_) => {
                    &&& out.statuses@.len() == 0
                    &&& final(self).pending_sprite_announce == old(self).pending_sprite_announce
                    &&& final(self).pending_state_sync == old(self).pending_state_sync
                    &&& final(self).next_heartbeat_ms == old(self).next_heartbeat_ms
                },
            },
    {
        proof {
            lemma_empty_error();
        }
        let mut statuses: Vec<RemoteStatus> = Vec::new();
        if result.is_ok() {
            self.pending_sprite_announce = false;
            self.pending_state_sync = false;
            self.next_heartbeat_ms = Some(now_ms + HEARTBEAT_MS);
            if self.sending_sprite {
                let st = build_status(&self.cfg, self.current_sprite.as_str(), true, false, "");
                self.publish(&mut statuses, st);
            }
        }
        self.phase = ActorPhase::AwaitReceive;
        ActorOutput {
            close_session: false,
            peers_changed: false,
            statuses,
            command: ActorCommand::Receive,
        }
    }

    /// What came in within the poll interval: nothing, a message (applied to
    /// the table of peers), or the connection's end (the session is closed,
    /// the peers forgotten, and the reconnect waited for).
    pub fn on_received(&mut self, outcome: Option<Result<IncomingMessage, String>>) -> (out: ActorOutput)
        requires
            old(self).wf(),
            old(self).phase == ActorPhase::AwaitReceive,
        ensures
            final(self).wf(),
            match outcome {
                None => {
                    &&& out.command is Tick
                    &&& !out.close_session
                    &&& !out.peers_changed
                    &&& out.statuses@.len() == 0
                    &&& final(self).peers@ == old(self).peers@
                    &&& final(self).connected
                    &&& final(self).phase == ActorPhase::Ready
                },
                Some(Ok(msg)) => {
                    &&& out.command is Tick
                    &&& !out.close_session
                    &&& out.statuses@.len() == 0
                    &&& final(self).connected
                    &&& incoming_spec(old(self).peers@, msg, final(self).peers@, out.peers_changed)
                    &&& final(self).phase == ActorPhase::Ready
                },
                Some(Err(reason)) => {
                    let permanent = permanent_text(lowercase(reason@));
                    &&& out.close_session
                    &&& out.peers_changed
                    &&& !final(self).connected
                    &&& final(self).peers@.len() == 0
                    &&& publishes(
                        old(self).last_status,
                        final(self).last_status,
                        out.statuses@,
                        old(self).cfg,
                        old(self).current_sprite@,
                        false,
                        !permanent,
                        reason@,
                    )
                    &&& waits_after_failure(*old(self), *final(self), out.command, !permanent)
                    &&& final(self).phase == ActorPhase::Ready
                },
            },
    {
        let mut statuses: Vec<RemoteStatus> = Vec::new();
        match outcome {
            None => {
                self.phase = ActorPhase::Ready;
                ActorOutput {
                    close_session: false,
                    peers_changed: false,
                    statuses,
                    command: ActorCommand::Tick,
                }
            },
            Some(Ok(msg)) => {
                let changed = handle_incoming(&mut self.peers, msg);
                self.phase = ActorPhase::Ready;
                ActorOutput {
                    close_session: false,
                    peers_changed: changed,
                    statuses,
                    command: ActorCommand::Tick,
                }
            },
            Some(Err(reason)) => {
                self.connected = false;
                self.peers.clear();
                let permanent = is_permanent_error(reason.as_str());
                let st = build_status(
                    &self.cfg,
                    self.current_sprite.as_str(),
                    false,
                    !permanent,
                    reason.as_str(),
                );
                self.publish(&mut statuses, st);
                self.phase = ActorPhase::Ready;
                let command = self.fail_wait(!permanent);
                ActorOutput { close_session: true, peers_changed: true, statuses, command }
            },
        }
    }
}


/// The room a chat line is posted to: the trimmed room code while in room
/// mode, when there is one.
pub fn chat_room_code(cfg: &RemoteConfig) -> (r: Option<String>)
    ensures
        match r {
            Some(c) => cfg.mode@ == "room"@ && c@ == trim_seq(cfg.room@) && c@.len() > 0,
            None => !(cfg.mode@ == "room"@ && trim_seq(cfg.room@).len() > 0),
        },
{
    if !str_eq(cfg.mode.as_str(), "room") {
        return None;
    }
    let room = trim(cfg.room.as_str());
    if room.as_str().is_empty() {
        None
    } else {
        Some(room)
    }
}

// ---------------------------------------------------------------------------
// laws
// ---------------------------------------------------------------------------

pub open spec fn no_bar(s: Seq<char>) -> bool {
    forall|i: int| 0 <= i < s.len() ==> s[i] != '|'
}

proof fn lemma_split_at_bar(x: Seq<char>, y: Seq<char>, u: Seq<char>, v: Seq<char>)
    requires
        no_bar(x),
        no_bar(u),
        x + "|"@ + y == u + "|"@ + v,
    ensures
        x == u,
        y == v,
{
    reveal_strlit("|");
    let l = x + "|"@ + y;
    let r = u + "|"@ + v;
    if x.len() < u.len() {
        assert(l[x.len() as int] == '|');
        assert(r[x.len() as int] == u[x.len() as int]);
    } else if u.len() < x.len() {
        assert(r[u.len() as int] == '|');
        assert(l[u.len() as int] == x[u.len() as int]);
    }
    assert(x =~= l.subrange(0, x.len() as int));
    assert(u =~= r.subrange(0, u.len() as int));
    assert(y =~= l.subrange(x.len() as int + 1, l.len() as int));
    assert(v =~= r.subrange(u.len() as int + 1, r.len() as int));
}

/// The reconnect signature changes exactly when the connection has to be
/// remade: two configurations have the same signature when both are
/// disabled, or both enabled with the same server, mode, nonce and room
/// (server and mode free of `|`, which the signature uses as separator);
/// the pet plays no part in it.
pub proof fn law_signature_tracks_connection(a: RemoteConfig, b: RemoteConfig)
    requires
        no_bar(a.server_url@),
        no_bar(b.server_url@),
        no_bar(a.mode@),
        no_bar(b.mode@),
    ensures
        (signature_spec(a) == signature_spec(b)) <==> ((!a.enabled && !b.enabled) || (a.enabled
            && b.enabled && a.server_url@ == b.server_url@ && a.mode@ == b.mode@ && a.session_nonce
            == b.session_nonce && a.room@ == b.room@)),
{
    reveal_strlit("off");
    reveal_strlit("on|");
    reveal_strlit("|");
    if a.enabled && b.enabled && signature_spec(a) == signature_spec(b) {
        let na = decimal(a.session_nonce as nat);
        let nb = decimal(b.session_nonce as nat);
        crate::text::lemma_decimal_digits(a.session_nonce as nat);
        crate::text::lemma_decimal_digits(b.session_nonce as nat);
        assert(no_bar(na)) by {
            assert forall|i: int| 0 <= i < na.len() implies na[i] != '|' by {
                assert(crate::text::is_digit(na[i]));
            }
        }
        assert(no_bar(nb)) by {
            assert forall|i: int| 0 <= i < nb.len() implies nb[i] != '|' by {
                assert(crate::text::is_digit(nb[i]));
            }
        }
        let sa = signature_spec(a);
        let pa = "on|"@;
        let ra = a.mode@ + "|"@ + (na + "|"@ + a.room@);
        let rb = b.mode@ + "|"@ + (nb + "|"@ + b.room@);
        assert(sa =~= pa + (a.server_url@ + "|"@ + ra));
        assert(signature_spec(b) =~= pa + (b.server_url@ + "|"@ + rb));
        assert((a.server_url@ + "|"@ + ra) =~= sa.skip(3));
        assert((b.server_url@ + "|"@ + rb) =~= signature_spec(b).skip(3));
        lemma_split_at_bar(a.server_url@, ra, b.server_url@, rb);
        lemma_split_at_bar(a.mode@, na + "|"@ + a.room@, b.mode@, nb + "|"@ + b.room@);
        lemma_split_at_bar(na, a.room@, nb, b.room@);
    }
    if a.enabled && !b.enabled {
        assert(signature_spec(a)[1] == 'n');
        assert(signature_spec(b)[1] == 'f');
    }
    if !a.enabled && b.enabled {
        assert(signature_spec(b)[1] == 'n');
        assert(signature_spec(a)[1] == 'f');
    }
}

/// Normalizing `remote.json` a second time changes nothing, so a written
/// configuration reads back as written. The exception is a server URL that
/// still ends with `/` once trimmed (such as `http://host/ `): normalizing
/// it again removes that slash, unless nothing is left and the default URL
/// is that very text. When nothing at all is left of the URL, the default
/// must itself be in normal form.
pub proof fn law_normalize_remote_config_stable(url: Seq<char>, mode: Seq<char>, room: Seq<char>, d: Seq<char>)
    requires
        ({
            let u = trim_seq(trim_end_char(url, '/'));
            &&& (u.len() > 0 && u.last() == '/') ==> (trim_seq(trim_end_char(u, '/')).len() == 0
                && d == u)
            &&& u.len() == 0 ==> normalized_url(d, d) == d
        }),
    ensures
        normalized_url(normalized_url(url, d), d) == normalized_url(url, d),
        normalized_mode(normalized_mode(mode, room), trim_seq(room)) == normalized_mode(mode, room),
        trim_seq(trim_seq(room)) == trim_seq(room),
{
    let u = trim_seq(trim_end_char(url, '/'));
    lemma_trim_idempotent(trim_end_char(url, '/'));
    lemma_trim_idempotent(room);
    if u.len() > 0 && u.last() != '/' {
        assert(trim_end_char(u, '/') == u);
    }
    reveal_strlit("room");
    reveal_strlit("random");
}

/// A `peer_action` message is handled exactly as a `peer_state` message
/// with the same fields: both merge the update into the peer they name.
pub proof fn law_peer_action_as_peer_state(
    old: Seq<PeerSnapshotV>,
    action_msg: IncomingMessage,
    state_msg: IncomingMessage,
    new: Seq<PeerSnapshotV>,
    changed: bool,
)
    requires
        text_or_empty(action_msg.msg_type) == "peer_action"@,
        text_or_empty(state_msg.msg_type) == "peer_state"@,
        action_msg.peer == state_msg.peer,
        action_msg.peers == state_msg.peers,
    ensures
        incoming_spec(old, action_msg, new, changed) <==> incoming_spec(
            old,
            state_msg,
            new,
            changed,
        ),
{
    reveal_strlit("peer_action");
    reveal_strlit("peer_state");
    reveal_strlit("room_snapshot");
    reveal_strlit("peer_left");
    reveal_strlit("peer_joined");
    reveal_strlit("peer_sprite_changed");
    assert("peer_action"@.len() == 11 && "peer_state"@.len() == 10);
    assert("room_snapshot"@.len() == 13 && "peer_left"@.len() == 9);
    assert("peer_joined"@.len() == 11 && "peer_sprite_changed"@.len() == 19);
    assert("peer_action"@[5] != "peer_joined"@[5]);
}

/// A `peer_state` or `peer_action` message naming a known peer (by a
/// non-empty id) reports a change and updates that peer; when the message
/// has no `state` but a non-empty `action`, the peer's state becomes the
/// action.
pub proof fn law_peer_update_changes_known_peer(
    old: Seq<PeerSnapshotV>,
    msg: IncomingMessage,
    new: Seq<PeerSnapshotV>,
    changed: bool,
    id: String,
)
    requires
        text_or_empty(msg.msg_type) == "peer_state"@ || text_or_empty(msg.msg_type)
            == "peer_action"@,
        msg.peer.peer_id == JsonText::Text(id),
        id@.len() > 0,
        lookup(old, id@) is Some,
        incoming_spec(old, msg, new, changed),
    ensures
        changed,
        lookup(new, id@) is Some,
        lookup(new, id@)->0.peer_id == id@,
        msg.peer.state is Absent && text_or_empty(msg.peer.action).len() > 0 ==> lookup(
            new,
            id@,
        )->0.state == text_or_empty(msg.peer.action),
        (msg.peer.state matches JsonText::Text(st) && st@.len() > 0) ==> lookup(
            new,
            id@,
        )->0.state == text_or_empty(msg.peer.state),
{
    reveal_strlit("peer_action");
    reveal_strlit("peer_state");
    reveal_strlit("room_snapshot");
    reveal_strlit("peer_left");
    assert("peer_action"@.len() == 11 && "peer_state"@.len() == 10);
    assert("room_snapshot"@.len() == 13 && "peer_left"@.len() == 9);
    assert("peer_left"@[5] != "peer_state"@[5]);
    let p = merge_spec(lookup(old, id@), msg.peer)->0;
    assert(lookup(new, id@) == Some(p));
}

/// What each edit of the remote configuration is for: `Enable` and
/// `Disable` set the switch, `UseRandom` and `UseRoom` switch remote play on
/// in that mode, `JoinRoom` switches it on in the given room (keeping the
/// saved cap unless one is given), `SetServer` sets the server, `Leave`
/// stays connected but changes the nonce (so the connection is remade),
/// and `Shutdown` switches remote play off with the nonce back at zero.
/// No edit touches the server but `SetServer`, nor the room but `JoinRoom`.
pub proof fn law_edit_effects(cfg: RemoteConfig, edit: RemoteEdit, r: RemoteConfig)
    requires
        edited_config(cfg, edit, r),
    ensures
        edit is Enable ==> r.enabled,
        edit is Disable ==> !r.enabled,
        edit is UseRandom ==> r.enabled && r.mode@ == "random"@,
        edit is UseRoom ==> r.enabled && r.mode@ == "room"@,
        edit matches RemoteEdit::JoinRoom(code, limit) ==> r.enabled && r.mode@ == "room"@ && r.room
            == code && r.room_limit == (match limit {
            Some(l) => l,
            None => cfg.room_limit,
        }),
        edit matches RemoteEdit::SetServer(url) ==> r.server_url == url,
        edit is Leave ==> r.enabled == cfg.enabled && r.session_nonce != cfg.session_nonce,
        edit is Shutdown ==> !r.enabled && r.session_nonce == 0,
        !(edit is SetServer) ==> r.server_url == cfg.server_url,
        !(edit is JoinRoom) ==> r.room == cfg.room,
{
}

/// A `peer_left` message naming a known peer reports a change and forgets
/// that peer only; a `room_snapshot` always reports a change; a message of
/// any other type (not one of the peer updates) changes nothing.
pub proof fn law_peer_left_and_others(
    old: Seq<PeerSnapshotV>,
    msg: IncomingMessage,
    new: Seq<PeerSnapshotV>,
    changed: bool,
    id: String,
    other: Seq<char>,
)
    requires
        incoming_spec(old, msg, new, changed),
    ensures
        (text_or_empty(msg.msg_type) == "peer_left"@ && msg.peer.peer_id == JsonText::Text(id)
            && lookup(old, id@) is Some) ==> changed && lookup(new, id@) is None && (other != id@
            ==> lookup(new, other) == lookup(old, other)),
        text_or_empty(msg.msg_type) == "room_snapshot"@ ==> changed,
        (text_or_empty(msg.msg_type) != "room_snapshot"@ && text_or_empty(msg.msg_type)
            != "peer_left"@ && !is_peer_update_type(text_or_empty(msg.msg_type))) ==> !changed
            && new == old,
{
    reveal_strlit("room_snapshot");
    reveal_strlit("peer_left");
    reveal_strlit("peer_joined");
    reveal_strlit("peer_state");
    reveal_strlit("peer_action");
    reveal_strlit("peer_sprite_changed");
    assert("room_snapshot"@.len() == 13 && "peer_left"@.len() == 9);
    assert("peer_joined"@.len() == 11 && "peer_state"@.len() == 10);
    assert("peer_action"@.len() == 11 && "peer_sprite_changed"@.len() == 19);
}

/// Toggling flips remote play and keeps every other field; toggling twice
/// gives back the configuration it started from.
pub proof fn law_toggle_flips(cfg: RemoteConfig, once: RemoteConfig, twice: RemoteConfig)
    requires
        edited_config(cfg, RemoteEdit::Toggle, once),
        edited_config(once, RemoteEdit::Toggle, twice),
    ensures
        once.enabled == !cfg.enabled,
        once.server_url == cfg.server_url,
        once.mode == cfg.mode,
        once.room == cfg.room,
        once.room_limit == cfg.room_limit,
        once.session_nonce == cfg.session_nonce,
        twice == cfg,
{
}

/// A peer update never forgets what was known of the peer: every field that
/// was known stays known.
pub proof fn law_merge_keeps_known(prev: PeerSnapshotV, msg: PeerMessage)
    ensures
        merge_spec(Some(prev), msg) matches Some(p) && {
            &&& prev.device_id.len() > 0 ==> p.device_id.len() > 0
            &&& prev.state.len() > 0 ==> p.state.len() > 0
            &&& prev.sprite.len() > 0 ==> p.sprite.len() > 0
            &&& prev.sprite_url.len() > 0 ==> p.sprite_url.len() > 0
            &&& prev.json_url.len() > 0 ==> p.json_url.len() > 0
            &&& prev.config_url is Some ==> p.config_url is Some
        },
{
}

/// A status is published only when it differs from the last one published.
pub proof fn law_status_published_on_change(
    old_last: Option<RemoteStatus>,
    new_last: Option<RemoteStatus>,
    out: Seq<RemoteStatus>,
    cfg: RemoteConfig,
    sprite: Seq<char>,
    connected: bool,
    reconnecting: bool,
    error: Seq<char>,
)
    requires
        publishes(old_last, new_last, out, cfg, sprite, connected, reconnecting, error),
    ensures
        out.len() <= 1,
        out.len() == 1 ==> !(old_last matches Some(l) && same_status(l, out[0])),
        out.len() == 0 ==> old_last is Some && new_last == old_last,
        new_last matches Some(l) && status_is(l, cfg, sprite, connected, reconnecting, error),
{
}

/// Reconnect delays double from two seconds up to one minute: every delay
/// stays within those bounds, and five failures in a row reach the cap.
pub proof fn law_backoff(d: u64)
    requires
        RECONNECT_INITIAL_MS <= d <= RECONNECT_MAX_MS,
    ensures
        RECONNECT_INITIAL_MS <= backoff(d) <= RECONNECT_MAX_MS,
        backoff(d) == RECONNECT_MAX_MS || backoff(d) == 2 * d,
        backoff(backoff(backoff(backoff(backoff(RECONNECT_INITIAL_MS))))) == RECONNECT_MAX_MS,
{
}

} // verus!

