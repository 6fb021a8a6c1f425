//! Chat and hook bubbles: the events that CLI producers queue for the GUI,
//! the identifiers and labels derived from them, the room history file, and
//! the store of open bubbles with its per-owner chat history.
use vstd::prelude::*;

use crate::state::{insert_sorted_unique, names_view};
use crate::text::{
    join_path, lemma_lex_irrefl, lemma_lex_total, lemma_lex_trans, lex_lt, lex_lt_exec, path_join,
    sorted_strict, chars_of, decimal, decimal_exec, filter_safe, filter_safe_upper, hex_lower, hex_lower_exec,
    hex_upper2, hex_upper2_exec, is_ascii_alnum, owned, push_char, push_str, safe_filter, str_eq,
    trim, trim_seq, upper_seq,
};

verus! {

pub const DEFAULT_HOOK_TTL_MS: u64 = 8_000;

pub const DEFAULT_USER_TTL_MS: u64 = 12_000;

pub const MAX_BUBBLE_TEXT_CHARS: usize = 2_000;

pub const CHAT_HISTORY_LIMIT: usize = 5;

// ---------------------------------------------------------------------------
// data
// ---------------------------------------------------------------------------

/// Who a bubble belongs to: the local pet or a remote peer.
#[derive(Debug, Clone, PartialEq, Eq, Hash)]
pub enum BubbleOwner {
    Local,
    Peer { peer_id: String, device_id: Option<String> },
}

#[derive(Debug, Clone, Copy, PartialEq, Eq, Structural)]
pub enum BubbleSource {
    Hook,
    UserInput,
    PeerUserInput,
}

#[derive(Debug, Clone, PartialEq, Eq)]
pub struct BubbleEvent {
    pub id: String,
    pub owner: BubbleOwner,
    pub source: BubbleSource,
    pub text: String,
    pub ttl_ms: u64,
    pub created_ms: u64,
    pub room_code: Option<String>,
    pub device_id: Option<String>,
}

/// What a bubble window asks for when it opens.
#[derive(Debug, Clone)]
pub struct BubbleInit {
    pub id: String,
    pub owner: BubbleOwner,
    pub source: BubbleSource,
    /// "hook" or "chat"
    pub mode: String,
    pub text: String,
    pub messages: Vec<String>,
    pub message_times: Vec<u64>,
    pub ttl_ms: u64,
    pub created_ms: u64,
}

#[derive(Debug, Clone, PartialEq, Eq)]
pub struct ChatOutboxItem {
    pub id: String,
    pub text: String,
    pub created_ms: u64,
    pub room_code: Option<String>,
}

/// A chat outbox item together with the spool file it was read from.
#[derive(Debug, Clone)]
pub struct ChatOutboxFile {
    pub path: String,
    pub item: ChatOutboxItem,
}

#[derive(Debug, Clone, PartialEq, Eq)]
pub struct ChatHistoryEntry {
    pub id: String,
    pub source: BubbleSource,
    pub owner: BubbleOwner,
    pub text: String,
    pub created_ms: u64,
    pub device_id: Option<String>,
}

/// The per-room history file `chat-history/<ROOM>.json`.
#[derive(Debug, Clone, PartialEq, Eq)]
pub struct ChatHistoryFile {
    pub room_code: String,
    pub updated_ms: u64,
    pub messages: Vec<ChatHistoryEntry>,
}

/// The parts of a bubble identifier (`<prefix>-<ms hex>-<pid>-<seq hex>`)
/// and the creation time of the event, which the caller reads from the
/// clock, the process and its counter.
#[derive(Debug, Clone, Copy)]
pub struct BubbleStamp {
    pub id_ms: u64,
    pub pid: u32,
    pub seq: u64,
    pub created_ms: u64,
}

// ---------------------------------------------------------------------------
// specifications of the derived names
// ---------------------------------------------------------------------------

pub open spec fn opt_view(o: Option<String>) -> Option<Seq<char>> {
    match o {
        Some(s) => Some(s@),
        None => None,
    }
}

pub open spec fn sanitize_filename_spec(s: Seq<char>) -> Seq<char> {
    let f = safe_filter(s);
    if f.len() == 0 {
        "bubble"@
    } else {
        f
    }
}

pub open spec fn stable_peer_key_spec(peer_id: Seq<char>, device_id: Option<Seq<char>>) -> Seq<
    char,
> {
    match device_id {
        Some(d) => if trim_seq(d).len() > 0 {
            sanitize_filename_spec(trim_seq(d))
        } else {
            sanitize_filename_spec(peer_id)
        },
        None => sanitize_filename_spec(peer_id),
    }
}

pub open spec fn normalize_text_spec(s: Seq<char>) -> Option<Seq<char>> {
    let t = trim_seq(s);
    if t.len() == 0 {
        None
    } else if t.len() > MAX_BUBBLE_TEXT_CHARS {
        Some(t.take(MAX_BUBBLE_TEXT_CHARS as int))
    } else {
        Some(t)
    }
}

pub open spec fn make_id_spec(prefix: Seq<char>, stamp: BubbleStamp) -> Seq<char> {
    prefix + "-"@ + hex_lower(stamp.id_ms as nat) + "-"@ + decimal(stamp.pid as nat) + "-"@
        + hex_lower(stamp.seq as nat)
}

pub open spec fn is_unreserved(c: char) -> bool {
    is_ascii_alnum(c) || c == '-' || c == '_' || c == '.' || c == '~'
}

pub open spec fn url_encode_char(c: char) -> Seq<char> {
    if is_unreserved(c) {
        seq![c]
    } else {
        seq!['%'] + hex_upper2((c as u32) as nat)
    }
}

/// Percent-encoding of every character outside `[A-Za-z0-9-_.~]` by its
/// code point in upper-case hex (`%XX`).
pub open spec fn url_encode_spec(s: Seq<char>) -> Seq<char>
    decreases s.len(),
{
    if s.len() == 0 {
        Seq::empty()
    } else {
        url_encode_spec(s.drop_last()) + url_encode_char(s.last())
    }
}

pub open spec fn bubble_window_label_spec(id: Seq<char>) -> Seq<char> {
    "bubble-"@ + sanitize_filename_spec(id)
}

/// The value of a [`BubbleOwner`].
pub enum OwnerV {
    Local,
    Peer { peer_id: Seq<char>, device_id: Option<Seq<char>> },
}

impl View for BubbleOwner {
    type V = OwnerV;

    open spec fn view(&self) -> OwnerV {
        match self {
            BubbleOwner::Local => OwnerV::Local,
            BubbleOwner::Peer { peer_id, device_id } => OwnerV::Peer {
                peer_id: peer_id@,
                device_id: opt_view(*device_id),
            },
        }
    }
}

impl OwnerV {
    /// The key that groups bubbles and chat history by partner.
    pub open spec fn key(self) -> Seq<char> {
        match self {
            OwnerV::Local => "local"@,
            OwnerV::Peer { peer_id, device_id } => "peer:"@ + stable_peer_key_spec(
                peer_id,
                device_id,
            ),
        }
    }

    /// The id of the single chat bubble of this owner.
    pub open spec fn chat_id(self) -> Seq<char> {
        match self {
            OwnerV::Local => "chat-local"@,
            OwnerV::Peer { peer_id, device_id } => "chat-peer-"@ + stable_peer_key_spec(
                peer_id,
                device_id,
            ),
        }
    }
}

impl BubbleOwner {
    pub fn duplicate(&self) -> (r: Self)
        ensures
            r == *self,
    {
        match self {
            BubbleOwner::Local => BubbleOwner::Local,
            BubbleOwner::Peer { peer_id, device_id } => BubbleOwner::Peer {
                peer_id: peer_id.clone(),
                device_id: dup_opt(device_id),
            },
        }
    }

    /// `"local"` or `"peer:<stable key>"`.
    pub fn to_key(&self) -> (k: String)
        ensures
            k@ == self@.key(),
    {
        match self {
            BubbleOwner::Local => owned("local"),
            BubbleOwner::Peer { peer_id, device_id } => {
                let mut k = owned("peer:");
                let d = match device_id {
                    Some(d) => Some(d.as_str()),
                    None => None,
                };
                let s = stable_peer_key(peer_id.as_str(), d);
                push_str(&mut k, s.as_str());
                k
            },
        }
    }
}

pub fn dup_opt(o: &Option<String>) -> (r: Option<String>)
    ensures
        r == *o,
{
    match o {
        Some(s) => Some(s.clone()),
        None => None,
    }
}

// ---------------------------------------------------------------------------
// names, labels and ids
// ---------------------------------------------------------------------------

/// The safe characters of `input`, or `"bubble"` when none is left.
pub fn sanitize_filename(input: &str) -> (r: String)
    ensures
        r@ == sanitize_filename_spec(input@),
{
    let f = filter_safe(input);
    if f.as_str().is_empty() {
        owned("bubble")
    } else {
        f
    }
}

pub fn sanitize_peer_id(input: &str) -> (r: String)
    ensures
        r@ == safe_filter(input@),
{
    filter_safe(input)
}

pub fn sanitize_room_code(input: &str) -> (r: String)
    ensures
        r@ == upper_seq(safe_filter(input@)),
{
    filter_safe_upper(input)
}

/// The most stable identifier of a partner: its trimmed device id when it
/// has a non-blank one, else its connection's peer id; sanitized.
pub fn stable_peer_key(peer_id: &str, device_id: Option<&str>) -> (r: String)
    ensures
        r@ == stable_peer_key_spec(
            peer_id@,
            match device_id {
                Some(d) => Some(d@),
                None => None,
            },
        ),
{
    match device_id {
        Some(d) => {
            let t = trim(d);
            if t.as_str().is_empty() {
                sanitize_filename(peer_id)
            } else {
                sanitize_filename(t.as_str())
            }
        },
        None => sanitize_filename(peer_id),
    }
}

/// Trimmed text cut to its first `MAX_BUBBLE_TEXT_CHARS` characters; `None`
/// when nothing but white space was given.
pub fn normalize_text(text: &str) -> (r: Option<String>)
    ensures
        opt_view(r) == normalize_text_spec(text@),
{
    let t = trim(text);
    let cs = chars_of(t.as_str());
    if cs.len() == 0 {
        return None;
    }
    let mut out = String::new();
    let mut i: usize = 0;
    while i < cs.len() && i < MAX_BUBBLE_TEXT_CHARS
        invariant
            i <= cs@.len(),
            i <= MAX_BUBBLE_TEXT_CHARS,
            out@ == cs@.take(i as int),
        decreases cs.len() - i,
    {
        push_char(&mut out, cs[i]);
        assert(cs@.take(i + 1) == cs@.take(i as int).push(cs@[i as int]));
        i += 1;
    }
    assert(cs@.len() <= MAX_BUBBLE_TEXT_CHARS ==> cs@.take(cs@.len() as int) == cs@);
    Some(out)
}

/// `<prefix>-<id_ms in hex>-<pid>-<seq in hex>`.
pub fn make_id(prefix: &str, stamp: BubbleStamp) -> (r: String)
    ensures
        r@ == make_id_spec(prefix@, stamp),
{
    let mut r = owned(prefix);
    push_char(&mut r, '-');
    let a = hex_lower_exec(stamp.id_ms);
    push_str(&mut r, a.as_str());
    push_char(&mut r, '-');
    let b = decimal_exec(stamp.pid as u64);
    push_str(&mut r, b.as_str());
    push_char(&mut r, '-');
    let c = hex_lower_exec(stamp.seq);
    push_str(&mut r, c.as_str());
    proof {
        reveal_strlit("-");
    }
    assert(r@ =~= make_id_spec(prefix@, stamp));
    r
}

/// Percent-encodes `s` for a URL fragment (see [`url_encode_spec`]).
pub fn urlencoding(s: &str) -> (r: String)
    ensures
        r@ == url_encode_spec(s@),
{
    let cs = chars_of(s);
    let mut r = String::new();
    let mut i: usize = 0;
    while i < cs.len()
        invariant
            i <= cs@.len(),
            cs@ == s@,
            r@ == url_encode_spec(cs@.take(i as int)),
        decreases cs.len() - i,
    {
        let c = cs[i];
        assert(cs@.take(i + 1).drop_last() == cs@.take(i as int));
        if ('a' <= c && c <= 'z') || ('A' <= c && c <= 'Z') || ('0' <= c && c <= '9') || c == '-'
            || c == '_' || c == '.' || c == '~' {
            let ghost before = r@;
            push_char(&mut r, c);
            assert(r@ =~= before + url_encode_char(c));
        } else {
            let ghost before = r@;
            push_char(&mut r, '%');
            let code: u32 = c as u32;
            let h = hex_upper2_exec(code as u64);
            assert(h@ == hex_upper2((c as u32) as nat));
            push_str(&mut r, h.as_str());
            assert(r@ =~= before + url_encode_char(c));
        }
        i += 1;
    }
    assert(cs@.take(cs@.len() as int) == cs@);
    r
}

/// The window label of a bubble: `bubble-<sanitized id>`.
pub fn bubble_window_label(bubble_id: &str) -> (r: String)
    ensures
        r@ == bubble_window_label_spec(bubble_id@),
{
    let mut r = owned("bubble-");
    let s = sanitize_filename(bubble_id);
    push_str(&mut r, s.as_str());
    r
}

/// `chat-local` or `chat-peer-<stable key>`.
pub fn chat_window_id(owner: &BubbleOwner) -> (r: String)
    ensures
        r@ == owner@.chat_id(),
{
    match owner {
        BubbleOwner::Local => owned("chat-local"),
        BubbleOwner::Peer { peer_id, device_id } => {
            let mut r = owned("chat-peer-");
            let d = match device_id {
                Some(d) => Some(d.as_str()),
                None => None,
            };
            let k = stable_peer_key(peer_id.as_str(), d);
            push_str(&mut r, k.as_str());
            r
        },
    }
}

/// The spool file (`<sanitized id>.json`) a queued item is renamed to, and
/// the temporary file (`<sanitized id>.tmp`) it is first written to.
pub fn spool_file_names(id: &str) -> (r: (String, String))
    ensures
        r.0@ == sanitize_filename_spec(id@) + ".json"@,
        r.1@ == sanitize_filename_spec(id@) + ".tmp"@,
{
    let safe = sanitize_filename(id);
    let mut a = safe.clone();
    push_str(&mut a, ".json");
    let mut b = safe;
    push_str(&mut b, ".tmp");
    (a, b)
}

// ---------------------------------------------------------------------------
// queued events
// ---------------------------------------------------------------------------

pub open spec fn hook_event_spec(text: Seq<char>, stamp: BubbleStamp, e: BubbleEvent) -> bool {
    &&& e.id@ == make_id_spec("hook"@, stamp)
    &&& e.owner == BubbleOwner::Local
    &&& e.source == BubbleSource::Hook
    &&& Some(e.text@) == normalize_text_spec(text)
    &&& e.ttl_ms == DEFAULT_HOOK_TTL_MS
    &&& e.created_ms == stamp.created_ms
    &&& e.room_code is None
    &&& e.device_id is None
}

/// The hook bubble event for `text` (a local, eight-second bubble), or
/// `None` when the text is blank. The caller spools the event for the GUI.
pub fn queue_hook_message(text: &str, stamp: BubbleStamp) -> (r: Option<BubbleEvent>)
    ensures
        r is None <==> normalize_text_spec(text@) is None,
        r matches Some(e) ==> hook_event_spec(text@, stamp, e),
{
    let clean = match normalize_text(text) {
        Some(c) => c,
        None => return None,
    };
    Some(
        BubbleEvent {
            id: make_id("hook", stamp),
            owner: BubbleOwner::Local,
            source: BubbleSource::Hook,
            text: clean,
            ttl_ms: DEFAULT_HOOK_TTL_MS,
            created_ms: stamp.created_ms,
            room_code: None,
            device_id: None,
        },
    )
}

/// The local user's chat event for `text`, or `None` when it is blank.
pub fn queue_local_user_message(text: &str, room_code: Option<String>, stamp: BubbleStamp) -> (r:
    Option<BubbleEvent>)
    ensures
        r is None <==> normalize_text_spec(text@) is None,
        r matches Some(e) ==> {
            &&& e.id@ == make_id_spec("user"@, stamp)
            &&& e.owner == BubbleOwner::Local
            &&& e.source == BubbleSource::UserInput
            &&& Some(e.text@) == normalize_text_spec(text@)
            &&& e.ttl_ms == DEFAULT_USER_TTL_MS
            &&& e.created_ms == stamp.created_ms
            &&& e.room_code == room_code
            &&& e.device_id is None
        },
{
    let clean = match normalize_text(text) {
        Some(c) => c,
        None => return None,
    };
    Some(
        BubbleEvent {
            id: make_id("user", stamp),
            owner: BubbleOwner::Local,
            source: BubbleSource::UserInput,
            text: clean,
            ttl_ms: DEFAULT_USER_TTL_MS,
            created_ms: stamp.created_ms,
            room_code,
            device_id: None,
        },
    )
}

/// A peer's chat event, or `None` when the sanitized peer id is empty or the
/// text is blank.
pub fn queue_peer_user_message(
    peer_id: &str,
    text: &str,
    room_code: Option<String>,
    device_id: Option<String>,
    stamp: BubbleStamp,
) -> (r: Option<BubbleEvent>)
    ensures
        r is None <==> (safe_filter(peer_id@).len() == 0 || normalize_text_spec(text@) is None),
        r matches Some(e) ==> {
            &&& e.id@ == make_id_spec("peer"@, stamp)
            &&& e.owner matches BubbleOwner::Peer { peer_id: p, device_id: d } && p@ == safe_filter(
                peer_id@,
            ) && d == device_id
            &&& e.source == BubbleSource::PeerUserInput
            &&& Some(e.text@) == normalize_text_spec(text@)
            &&& e.ttl_ms == DEFAULT_USER_TTL_MS
            &&& e.created_ms == stamp.created_ms
            &&& e.room_code == room_code
            &&& e.device_id == device_id
        },
{
    let peer = sanitize_peer_id(peer_id);
    if peer.as_str().is_empty() {
        return None;
    }
    let clean = match normalize_text(text) {
        Some(c) => c,
        None => return None,
    };
    Some(
        BubbleEvent {
            id: make_id("peer", stamp),
            owner: BubbleOwner::Peer { peer_id: peer, device_id: dup_opt(&device_id) },
            source: BubbleSource::PeerUserInput,
            text: clean,
            ttl_ms: DEFAULT_USER_TTL_MS,
            created_ms: stamp.created_ms,
            room_code,
            device_id,
        },
    )
}

/// The outgoing chat item for `text`, or `None` when it is blank. The
/// caller spools the item for the remote session.
pub fn enqueue_chat_outbox(text: &str, room_code: Option<String>, stamp: BubbleStamp) -> (r:
    Option<ChatOutboxItem>)
    ensures
        r is None <==> normalize_text_spec(text@) is None,
        r matches Some(item) ==> {
            &&& item.id@ == make_id_spec("chat"@, stamp)
            &&& Some(item.text@) == normalize_text_spec(text@)
            &&& item.created_ms == stamp.created_ms
            &&& item.room_code == room_code
        },
{
    let clean = match normalize_text(text) {
        Some(c) => c,
        None => return None,
    };
    Some(
        ChatOutboxItem {
            id: make_id("chat", stamp),
            text: clean,
            created_ms: stamp.created_ms,
            room_code,
        },
    )
}

/// Appends `entry` to a room's history. `existing` is the history file as
/// read back, when it could be read. Returns the file name and the new
/// contents, or `None` when the sanitized room code is empty (nothing is
/// written then).
pub fn append_room_history(
    room_code: &str,
    entry: ChatHistoryEntry,
    existing: Option<ChatHistoryFile>,
    now_ms: u64,
) -> (r: Option<(String, ChatHistoryFile)>)
    ensures
        r is None <==> safe_filter(room_code@).len() == 0,
        r matches Some((name, file)) ==> {
            &&& name@ == upper_seq(safe_filter(room_code@)) + ".json"@
            &&& file.updated_ms == now_ms
            &&& match existing {
                Some(h) => file.room_code == h.room_code && file.messages@ == h.messages@.push(
                    entry,
                ),
                None => file.room_code@ == upper_seq(safe_filter(room_code@)) && file.messages@
                    == seq![entry],
            }
        },
{
    let room = sanitize_room_code(room_code);
    if room.as_str().is_empty() {
        proof {
            assert(upper_seq(safe_filter(room_code@)).len() == safe_filter(room_code@).len());
        }
        return None;
    }
    let mut name = room.clone();
    push_str(&mut name, ".json");
    let mut history = match existing {
        Some(h) => h,
        None => ChatHistoryFile { room_code: room, updated_ms: now_ms, messages: Vec::new() },
    };
    history.updated_ms = now_ms;
    history.messages.push(entry);
    Some((name, history))
}

// ---------------------------------------------------------------------------
// the store of open bubbles
// ---------------------------------------------------------------------------

#[derive(Debug, Clone, Copy, PartialEq, Eq, Structural)]
pub enum BubbleMode {
    Hook,
    Chat,
}

/// Chat bubbles sort before hook bubbles of the same owner.
pub fn mode_rank(mode: BubbleMode) -> (r: u8)
    ensures
        r == (if mode == BubbleMode::Chat {
            0u8
        } else {
            1u8
        }),
{
    match mode {
        BubbleMode::Chat => 0,
        BubbleMode::Hook => 1,
    }
}

#[derive(Debug, Clone)]
pub struct ChatLine {
    pub text: String,
    pub created_ms: u64,
}

impl View for ChatLine {
    type V = (Seq<char>, u64);

    open spec fn view(&self) -> (Seq<char>, u64) {
        (self.text@, self.created_ms)
    }
}

pub open spec fn lines_view(v: Seq<ChatLine>) -> Seq<(Seq<char>, u64)> {
    v.map_values(|l: ChatLine| l@)
}

#[derive(Debug, Clone)]
pub struct OpenBubble {
    pub id: String,
    pub owner: BubbleOwner,
    pub source: BubbleSource,
    pub mode: BubbleMode,
    pub text: String,
    pub messages: Vec<ChatLine>,
    pub ttl_ms: u64,
    pub created_ms: u64,
    pub hovered: bool,
}

/// The value of an [`OpenBubble`].
pub struct OpenBubbleV {
    pub id: Seq<char>,
    pub owner: OwnerV,
    pub source: BubbleSource,
    pub mode: BubbleMode,
    pub text: Seq<char>,
    pub messages: Seq<(Seq<char>, u64)>,
    pub ttl_ms: u64,
    pub created_ms: u64,
    pub hovered: bool,
}

impl View for OpenBubble {
    type V = OpenBubbleV;

    open spec fn view(&self) -> OpenBubbleV {
        OpenBubbleV {
            id: self.id@,
            owner: self.owner@,
            source: self.source,
            mode: self.mode,
            text: self.text@,
            messages: lines_view(self.messages@),
            ttl_ms: self.ttl_ms,
            created_ms: self.created_ms,
            hovered: self.hovered,
        }
    }
}

/// The recent chat lines of one owner, and whether its bubble was dismissed.
#[derive(Debug, Clone)]
pub struct ChatBucket {
    pub owner_key: String,
    pub recent: Vec<ChatLine>,
    pub dismissed: bool,
}

pub struct ChatBucketV {
    pub owner_key: Seq<char>,
    pub recent: Seq<(Seq<char>, u64)>,
    pub dismissed: bool,
}

impl View for ChatBucket {
    type V = ChatBucketV;

    open spec fn view(&self) -> ChatBucketV {
        ChatBucketV {
            owner_key: self.owner_key@,
            recent: lines_view(self.recent@),
            dismissed: self.dismissed,
        }
    }
}

impl ChatLine {
    pub fn duplicate(&self) -> (r: Self)
        ensures
            r == *self,
    {
        ChatLine { text: self.text.clone(), created_ms: self.created_ms }
    }
}

pub fn dup_lines(v: &Vec<ChatLine>) -> (r: Vec<ChatLine>)
    ensures
        r@ == v@,
{
    let mut r: Vec<ChatLine> = Vec::new();
    let mut i: usize = 0;
    while i < v.len()
        invariant
            i <= v@.len(),
            r@ == v@.take(i as int),
        decreases v.len() - i,
    {
        r.push(v[i].duplicate());
        assert(v@.take(i + 1) == v@.take(i as int).push(v@[i as int]));
        i += 1;
    }
    assert(v@.take(v@.len() as int) == v@);
    r
}

impl OpenBubbleV {
    /// Whether this is a hook bubble whose time is up at `now` (and that the
    /// pointer is not over); the deadline saturates at `u64::MAX`.
    pub open spec fn is_expired(self, now: u64) -> bool {
        &&& self.mode == BubbleMode::Hook
        &&& !self.hovered
        &&& (if self.created_ms + self.ttl_ms > u64::MAX {
            u64::MAX as int
        } else {
            self.created_ms + self.ttl_ms
        }) <= now
    }

    /// `init` is what the bubble window receives for this bubble.
    pub open spec fn init_matches(self, init: BubbleInit) -> bool {
        &&& init.id@ == self.id
        &&& init.owner@ == self.owner
        &&& init.source == self.source
        &&& init.mode@ == (if self.mode == BubbleMode::Hook {
            "hook"@
        } else {
            "chat"@
        })
        &&& init.text@ == self.text
        &&& init.messages@.map_values(|s: String| s@) == self.messages.map_values(
            |l: (Seq<char>, u64)| l.0,
        )
        &&& init.message_times@ == self.messages.map_values(|l: (Seq<char>, u64)| l.1)
        &&& init.ttl_ms == self.ttl_ms
        &&& init.created_ms == self.created_ms
    }
}

impl OpenBubble {
    pub fn duplicate(&self) -> (r: Self)
        ensures
            r@ == self@,
    {
        OpenBubble {
            id: self.id.clone(),
            owner: self.owner.duplicate(),
            source: self.source,
            mode: self.mode,
            text: self.text.clone(),
            messages: dup_lines(&self.messages),
            ttl_ms: self.ttl_ms,
            created_ms: self.created_ms,
            hovered: self.hovered,
        }
    }

    pub fn to_init(&self) -> (r: BubbleInit)
        ensures
            self@.init_matches(r),
    {
        let mut messages: Vec<String> = Vec::new();
        let mut times: Vec<u64> = Vec::new();
        let mut i: usize = 0;
        let ghost lv = lines_view(self.messages@);
        while i < self.messages.len()
            invariant
                i <= self.messages@.len(),
                lv == lines_view(self.messages@),
                messages@.map_values(|s: String| s@) == lv.take(i as int).map_values(
                    |l: (Seq<char>, u64)| l.0,
                ),
                times@ == lv.take(i as int).map_values(|l: (Seq<char>, u64)| l.1),
            decreases self.messages.len() - i,
        {
            let ghost before = messages@;
            messages.push(self.messages[i].text.clone());
            times.push(self.messages[i].created_ms);
            assert(lv.take(i + 1) == lv.take(i as int).push(lv[i as int]));
            assert(messages@.map_values(|s: String| s@) == before.map_values(|s: String| s@).push(
                lv[i as int].0,
            ));
            i += 1;
        }
        assert(lv.take(lv.len() as int) == lv);
        BubbleInit {
            id: self.id.clone(),
            owner: self.owner.duplicate(),
            source: self.source,
            mode: match self.mode {
                BubbleMode::Hook => owned("hook"),
                BubbleMode::Chat => owned("chat"),
            },
            text: self.text.clone(),
            messages,
            message_times: times,
            ttl_ms: self.ttl_ms,
            created_ms: self.created_ms,
        }
    }
}

impl ChatBucket {
    pub fn duplicate(&self) -> (r: Self)
        ensures
            r@ == self@,
    {
        ChatBucket {
            owner_key: self.owner_key.clone(),
            recent: dup_lines(&self.recent),
            dismissed: self.dismissed,
        }
    }
}

/// The last `CHAT_HISTORY_LIMIT` lines of `s`.
pub open spec fn keep_recent(s: Seq<(Seq<char>, u64)>) -> Seq<(Seq<char>, u64)> {
    if s.len() > CHAT_HISTORY_LIMIT {
        s.skip(s.len() - CHAT_HISTORY_LIMIT)
    } else {
        s
    }
}

pub open spec fn ids_unique(s: Seq<OpenBubbleV>) -> bool {
    forall|i: int, j: int| 0 <= i < s.len() && 0 <= j < s.len() && i != j ==> s[i].id != s[j].id
}

pub open spec fn keys_unique(s: Seq<ChatBucketV>) -> bool {
    forall|i: int, j: int|
        0 <= i < s.len() && 0 <= j < s.len() && i != j ==> s[i].owner_key != s[j].owner_key
}

pub open spec fn has_open(s: Seq<OpenBubbleV>, id: Seq<char>) -> bool {
    exists|i: int| 0 <= i < s.len() && #[trigger] s[i].id == id
}

pub open spec fn has_bucket(s: Seq<ChatBucketV>, key: Seq<char>) -> bool {
    exists|i: int| 0 <= i < s.len() && #[trigger] s[i].owner_key == key
}

/// The bubbles that are open and the chat history of each owner. Bubble ids
/// are unique, owner keys are unique, and no owner keeps more than
/// `CHAT_HISTORY_LIMIT` recent lines.
pub struct BubbleStore {
    open: Vec<OpenBubble>,
    chat: Vec<ChatBucket>,
}

impl BubbleStore {
    pub closed spec fn bubbles(&self) -> Seq<OpenBubbleV> {
        self.open@.map_values(|b: OpenBubble| b@)
    }

    pub closed spec fn buckets(&self) -> Seq<ChatBucketV> {
        self.chat@.map_values(|b: ChatBucket| b@)
    }

    pub open spec fn wf(&self) -> bool {
        &&& ids_unique(self.bubbles())
        &&& keys_unique(self.buckets())
        &&& forall|i: int|
            0 <= i < self.buckets().len() ==> #[trigger] self.buckets()[i].recent.len()
                <= CHAT_HISTORY_LIMIT
    }

    pub fn new() -> (r: Self)
        ensures
            r.wf(),
            r.bubbles().len() == 0,
            r.buckets().len() == 0,
    {
        let r = BubbleStore { open: Vec::new(), chat: Vec::new() };
        assert(r.bubbles() =~= Seq::empty());
        assert(r.buckets() =~= Seq::empty());
        r
    }

    /// The position of the bubble with this id.
    fn find(&self, id: &str) -> (r: Option<usize>)
        ensures
            match r {
                Some(i) => i < self.open@.len() && self.bubbles()[i as int].id == id@,
                None => !has_open(self.bubbles(), id@),
            },
    {
        let mut i: usize = 0;
        while i < self.open.len()
            invariant
                i <= self.open@.len(),
                forall|j: int| 0 <= j < i ==> self.bubbles()[j].id != id@,
            decreases self.open.len() - i,
        {
            if str_eq(self.open[i].id.as_str(), id) {
                return Some(i);
            }
            i += 1;
        }
        None
    }

    fn find_bucket(&self, key: &str) -> (r: Option<usize>)
        ensures
            match r {
                Some(i) => i < self.chat@.len() && self.buckets()[i as int].owner_key == key@,
                None => !has_bucket(self.buckets(), key@),
            },
    {
        let mut i: usize = 0;
        while i < self.chat.len()
            invariant
                i <= self.chat@.len(),
                forall|j: int| 0 <= j < i ==> self.buckets()[j].owner_key != key@,
            decreases self.chat.len() - i,
        {
            if str_eq(self.chat[i].owner_key.as_str(), key) {
                return Some(i);
            }
            i += 1;
        }
        None
    }

    /// Whether a bubble with this id is open.
    pub fn is_open(&self, id: &str) -> (r: bool)
        ensures
            r == has_open(self.bubbles(), id@),
    {
        self.find(id).is_some()
    }

    /// The window payload of the bubble with this id.
    pub fn get_init(&self, bubble_id: &str) -> (r: Option<BubbleInit>)
        requires
            self.wf(),
        ensures
            r is None <==> !has_open(self.bubbles(), bubble_id@),
            r matches Some(init) ==> exists|i: int|
                0 <= i < self.bubbles().len() && self.bubbles()[i].id == bubble_id@
                    && #[trigger] self.bubbles()[i].init_matches(init),
    {
        match self.find(bubble_id) {
            Some(i) => {
                let init = self.open[i].to_init();
                assert(self.bubbles()[i as int].init_matches(init));
                Some(init)
            },
            None => None,
        }
    }

    fn remove_where_id(&mut self, id: &str)
        ensures
            final(self).bubbles() == old(self).bubbles().filter(|b: OpenBubbleV| b.id != id@),
            final(self).chat == old(self).chat,
    {
        let ghost pre = self.bubbles();
        let mut kept: Vec<OpenBubble> = Vec::new();
        let mut i: usize = 0;
        while i < self.open.len()
            invariant
                i <= self.open@.len(),
                pre == self.bubbles(),
                kept@.map_values(|b: OpenBubble| b@) == pre.take(i as int).filter(
                    |b: OpenBubbleV| b.id != id@,
                ),
            decreases self.open.len() - i,
        {
            proof {
                assert(pre.take(i + 1).drop_last() == pre.take(i as int));
                reveal_with_fuel(Seq::filter, 1);
            }
            if !str_eq(self.open[i].id.as_str(), id) {
                let ghost before = kept@;
                kept.push(self.open[i].duplicate());
                assert(kept@.map_values(|b: OpenBubble| b@) == before.map_values(
                    |b: OpenBubble| b@,
                ).push(pre[i as int]));
            }
            i += 1;
        }
        assert(pre.take(pre.len() as int) == pre);
        self.open = kept;
    }

    /// Removes the bubble with this id; returns whether one was open.
    pub fn close(&mut self, bubble_id: &str) -> (r: bool)
        requires
            old(self).wf(),
        ensures
            final(self).wf(),
            r == has_open(old(self).bubbles(), bubble_id@),
            final(self).bubbles() == old(self).bubbles().filter(
                |b: OpenBubbleV| b.id != bubble_id@,
            ),
            final(self).buckets() == old(self).buckets(),
    {
        let ghost pre = self.bubbles();
        let r = self.is_open(bubble_id);
        self.remove_where_id(bubble_id);
        proof {
            lemma_filter_keeps_unique(pre, |b: OpenBubbleV| b.id != bubble_id@);
        }
        r
    }

    /// Closes a chat bubble that the user dismissed and marks its owner's
    /// history as dismissed; a hook bubble or an unknown id is left alone.
    /// Returns whether a bubble was closed.
    pub fn dismiss_chat(&mut self, bubble_id: &str) -> (r: bool)
        requires
            old(self).wf(),
        ensures
            final(self).wf(),
            r == exists|i: int|
                0 <= i < old(self).bubbles().len() && old(self).bubbles()[i].id == bubble_id@
                    && #[trigger] old(self).bubbles()[i].mode == BubbleMode::Chat,
            !r ==> final(self).bubbles() == old(self).bubbles() && final(self).buckets() == old(
                self,
            ).buckets(),
            r ==> final(self).bubbles() == old(self).bubbles().filter(
                |b: OpenBubbleV| b.id != bubble_id@,
            ),
            r ==> final(self).buckets().len() == old(self).buckets().len(),
            r ==> forall|j: int|
                0 <= j < old(self).buckets().len() ==> {
                    let o = old(self).buckets()[j];
                    #[trigger] final(self).buckets()[j] == (if owner_key_of(
                        old(self).bubbles(),
                        bubble_id@,
                    ) == o.owner_key {
                        ChatBucketV { dismissed: true, ..o }
                    } else {
                        o
                    })
                },
    {
        let ghost pre_open = self.bubbles();
        let idx = match self.find(bubble_id) {
            Some(i) => i,
            None => return false,
        };
        proof {
            assert forall|i: int|
                0 <= i < pre_open.len() && pre_open[i].id == bubble_id@ implies i == idx by {
                if i != idx {
                    assert(pre_open[i].id != pre_open[idx as int].id);
                }
            }
        }
        if self.open[idx].mode != BubbleMode::Chat {
            assert(pre_open[idx as int].mode != BubbleMode::Chat);
            return false;
        }
        assert(pre_open[idx as int].mode == BubbleMode::Chat);
        let key = self.open[idx].owner.to_key();
        proof {
            lemma_owner_key_of(pre_open, bubble_id@, idx as int);
        }
        self.remove_where_id(bubble_id);
        proof {
            lemma_filter_keeps_unique(pre_open, |b: OpenBubbleV| b.id != bubble_id@);
        }
        let ghost pre_chat = self.buckets();
        match self.find_bucket(key.as_str()) {
            Some(j) => {
                let mut b = self.chat[j].duplicate();
                b.dismissed = true;
                self.chat.set(j, b);
                proof {
                    assert forall|x: int| 0 <= x < pre_chat.len() && x != j implies pre_chat[x].owner_key
                        != key@ by {
                        assert(pre_chat[x].owner_key != pre_chat[j as int].owner_key);
                    }
                    assert forall|x: int| 0 <= x < pre_chat.len() implies #[trigger] self.buckets()[x]
                        == (if key@ == pre_chat[x].owner_key {
                        ChatBucketV { dismissed: true, ..pre_chat[x] }
                    } else {
                        pre_chat[x]
                    }) by {
                        if x == j {
                        } else {
                            assert(self.buckets()[x] == pre_chat[x]);
                        }
                    }
                }
            },
            None => {},
        }
        true
    }

    /// Sets whether the pointer is over the bubble with this id.
    pub fn set_hover(&mut self, bubble_id: &str, hovering: bool)
        requires
            old(self).wf(),
        ensures
            final(self).wf(),
            final(self).buckets() == old(self).buckets(),
            final(self).bubbles().len() == old(self).bubbles().len(),
            forall|i: int|
                0 <= i < old(self).bubbles().len() ==> {
                    let o = old(self).bubbles()[i];
                    #[trigger] final(self).bubbles()[i] == (if o.id == bubble_id@ {
                        OpenBubbleV { hovered: hovering, ..o }
                    } else {
                        o
                    })
                },
    {
        let ghost pre = self.bubbles();
        match self.find(bubble_id) {
            Some(i) => {
                let mut b = self.open[i].duplicate();
                b.hovered = hovering;
                self.open.set(i, b);
                proof {
                    assert forall|x: int| 0 <= x < pre.len() && x != i implies pre[x].id
                        != bubble_id@ by {
                        assert(pre[x].id != pre[i as int].id);
                    }
                    assert forall|x: int| 0 <= x < pre.len() implies #[trigger] self.bubbles()[x]
                        == (if pre[x].id == bubble_id@ {
                        OpenBubbleV { hovered: hovering, ..pre[x] }
                    } else {
                        pre[x]
                    }) by {
                        if x != i {
                            assert(self.bubbles()[x] == pre[x]);
                        }
                    }
                }
            },
            None => {},
        }
    }

    /// The ids of the hook bubbles whose time is up at `now`, in store order.
    pub fn expired_ids(&self, now: u64) -> (r: Vec<String>)
        ensures
            r@.map_values(|s: String| s@) == self.bubbles().filter(
                |b: OpenBubbleV| b.is_expired(now),
            ).map_values(|b: OpenBubbleV| b.id),
    {
        let ghost pre = self.bubbles();
        let mut r: Vec<String> = Vec::new();
        let mut i: usize = 0;
        while i < self.open.len()
            invariant
                i <= self.open@.len(),
                pre == self.bubbles(),
                r@.map_values(|s: String| s@) == pre.take(i as int).filter(
                    |b: OpenBubbleV| b.is_expired(now),
                ).map_values(|b: OpenBubbleV| b.id),
            decreases self.open.len() - i,
        {
            proof {
                assert(pre.take(i + 1).drop_last() == pre.take(i as int));
                reveal_with_fuel(Seq::filter, 1);
            }
            let b = &self.open[i];
            let due = b.created_ms.saturating_add(b.ttl_ms);
            if b.mode == BubbleMode::Hook && !b.hovered && due <= now {
                let ghost before = r@;
                r.push(b.id.clone());
                assert(r@.map_values(|s: String| s@) == before.map_values(|s: String| s@).push(
                    pre[i as int].id,
                ));
            }
            i += 1;
        }
        assert(pre.take(pre.len() as int) == pre);
        r
    }

    /// Forgets every bubble and every chat history; returns the window labels
    /// of the bubbles that were open.
    pub fn close_all(&mut self) -> (r: Vec<String>)
        requires
            old(self).wf(),
        ensures
            final(self).wf(),
            final(self).bubbles().len() == 0,
            final(self).buckets().len() == 0,
            r@.map_values(|s: String| s@) == old(self).bubbles().map_values(
                |b: OpenBubbleV| bubble_window_label_spec(b.id),
            ),
    {
        let ghost pre = self.bubbles();
        let mut r: Vec<String> = Vec::new();
        let mut i: usize = 0;
        while i < self.open.len()
            invariant
                i <= self.open@.len(),
                pre == self.bubbles(),
                r@.map_values(|s: String| s@) == pre.take(i as int).map_values(
                    |b: OpenBubbleV| bubble_window_label_spec(b.id),
                ),
            decreases self.open.len() - i,
        {
            let ghost before = r@;
            r.push(bubble_window_label(self.open[i].id.as_str()));
            assert(r@.map_values(|s: String| s@) == before.map_values(|s: String| s@).push(
                bubble_window_label_spec(pre[i as int].id),
            ));
            assert(pre.take(i + 1) == pre.take(i as int).push(pre[i as int]));
            i += 1;
        }
        assert(pre.take(pre.len() as int) == pre);
        self.open = Vec::new();
        self.chat = Vec::new();
        assert(self.bubbles() =~= Seq::empty());
        assert(self.buckets() =~= Seq::empty());
        r
    }

    /// Closes the bubbles of peers that are no longer connected (local
    /// bubbles stay; chat history is kept so that a returning partner finds
    /// it). Returns the ids of the bubbles closed, in store order.
    pub fn sync_peer_owners(&mut self, active_peer_ids: &Vec<String>) -> (r: Vec<String>)
        requires
            old(self).wf(),
        ensures
            final(self).wf(),
            final(self).buckets() == old(self).buckets(),
            final(self).bubbles() == old(self).bubbles().filter(
                |b: OpenBubbleV| owner_is_active(b.owner, active_peer_ids@),
            ),
            r@.map_values(|s: String| s@) == old(self).bubbles().filter(
                |b: OpenBubbleV| !owner_is_active(b.owner, active_peer_ids@),
            ).map_values(|b: OpenBubbleV| b.id),
    {
        let ghost pre = self.bubbles();
        let mut kept: Vec<OpenBubble> = Vec::new();
        let mut removed: Vec<String> = Vec::new();
        let mut i: usize = 0;
        while i < self.open.len()
            invariant
                i <= self.open@.len(),
                pre == self.bubbles(),
                kept@.map_values(|b: OpenBubble| b@) == pre.take(i as int).filter(
                    |b: OpenBubbleV| owner_is_active(b.owner, active_peer_ids@),
                ),
                removed@.map_values(|s: String| s@) == pre.take(i as int).filter(
                    |b: OpenBubbleV| !owner_is_active(b.owner, active_peer_ids@),
                ).map_values(|b: OpenBubbleV| b.id),
            decreases self.open.len() - i,
        {
            proof {
                assert(pre.take(i + 1).drop_last() == pre.take(i as int));
                reveal_with_fuel(Seq::filter, 1);
            }
            let keep = match &self.open[i].owner {
                BubbleOwner::Local => true,
                BubbleOwner::Peer { peer_id, .. } => contains_string(
                    active_peer_ids,
                    peer_id.as_str(),
                ),
            };
            if keep {
                let ghost before = kept@;
                kept.push(self.open[i].duplicate());
                assert(kept@.map_values(|b: OpenBubble| b@) == before.map_values(
                    |b: OpenBubble| b@,
                ).push(pre[i as int]));
            } else {
                let ghost before = removed@;
                removed.push(self.open[i].id.clone());
                assert(removed@.map_values(|s: String| s@) == before.map_values(|s: String| s@).push(
                    pre[i as int].id,
                ));
            }
            i += 1;
        }
        assert(pre.take(pre.len() as int) == pre);
        self.open = kept;
        proof {
            lemma_filter_keeps_unique(pre, |b: OpenBubbleV| owner_is_active(b.owner, active_peer_ids@));
        }
        removed
    }

    /// Opens (or replaces) a hook bubble for `event`. Returns whether a new
    /// window has to be opened (no bubble had this id before).
    pub fn show_hook(&mut self, event: BubbleEvent) -> (r: bool)
        requires
            old(self).wf(),
        ensures
            final(self).wf(),
            r == !has_open(old(self).bubbles(), event.id@),
            final(self).buckets() == old(self).buckets(),
            r ==> final(self).bubbles() == old(self).bubbles().push(hook_bubble(event)),
            !r ==> final(self).bubbles() == old(self).bubbles().map_values(
                |b: OpenBubbleV|
                    if b.id == event.id@ {
                        hook_bubble(event)
                    } else {
                        b
                    },
            ),
    {
        let ghost pre = self.bubbles();
        let ghost expected = hook_bubble(event);
        let found = self.find(event.id.as_str());
        let text2 = event.text.clone();
        let bubble = OpenBubble {
            id: event.id,
            owner: event.owner,
            source: event.source,
            mode: BubbleMode::Hook,
            text: event.text,
            messages: vec![ChatLine { text: text2, created_ms: event.created_ms }],
            ttl_ms: event.ttl_ms,
            created_ms: event.created_ms,
            hovered: false,
        };
        assert(lines_view(bubble.messages@) =~= seq![(event.text@, event.created_ms)]);
        assert(bubble@ == expected);
        match found {
            Some(i) => {
                self.open.set(i, bubble);
                proof {
                    assert forall|x: int| 0 <= x < pre.len() && x != i implies pre[x].id
                        != event.id@ by {
                        assert(pre[x].id != pre[i as int].id);
                    }
                    assert(self.bubbles() =~= pre.map_values(
                        |b: OpenBubbleV|
                            if b.id == event.id@ {
                                expected
                            } else {
                                b
                            },
                    ));
                }
                false
            },
            None => {
                self.open.push(bubble);
                assert(self.bubbles() =~= pre.push(expected));
                true
            },
        }
    }

    /// Appends a chat line to its owner's history (keeping the last
    /// `CHAT_HISTORY_LIMIT` lines, and clearing a dismissal) and shows that
    /// history in the owner's chat bubble. Returns the bubble id and whether
    /// a window has to be opened (no bubble had that id) or updated.
    pub fn show_chat(&mut self, event: BubbleEvent) -> (r: (String, bool, bool))
        requires
            old(self).wf(),
        ensures
            final(self).wf(),
            r.0@ == event.owner@.chat_id(),
            r.1 == !has_open(old(self).bubbles(), event.owner@.chat_id()),
            r.2 == !r.1,
            chat_bucket_updated(old(self).buckets(), final(self).buckets(), event),
            chat_bubble_updated(
                old(self).bubbles(),
                final(self).bubbles(),
                event,
                bucket_lines(old(self).buckets(), event),
            ),
    {
        let key = event.owner.to_key();
        let id = chat_window_id(&event.owner);
        let line = ChatLine { text: event.text.clone(), created_ms: event.created_ms };
        let ghost lv = line@;
        let ghost pre_chat = self.buckets();
        let ghost lines = bucket_lines(pre_chat, event);
        let messages: Vec<ChatLine>;
        match self.find_bucket(key.as_str()) {
            Some(j) => {
                proof {
                    assert forall|x: int| 0 <= x < pre_chat.len() && pre_chat[x].owner_key == key@ implies x
                        == j by {
                        if x != j {
                            assert(pre_chat[x].owner_key != pre_chat[j as int].owner_key);
                        }
                    }
                    lemma_bucket_index(pre_chat, key@, j as int);
                }
                let mut b = self.chat[j].duplicate();
                let ghost old_recent = b.recent@;
                b.recent.push(line);
                assert(lines_view(b.recent@) =~= lines_view(old_recent).push(lv));
                if b.recent.len() > CHAT_HISTORY_LIMIT {
                    b.recent.remove(0);
                    assert(lines_view(b.recent@) =~= keep_recent(lines_view(old_recent).push(lv)));
                }
                assert(lines_view(b.recent@) == lines);
                assert(lines.len() <= CHAT_HISTORY_LIMIT);
                b.dismissed = false;
                messages = dup_lines(&b.recent);
                self.chat.set(j, b);
                proof {
                    assert forall|x: int| 0 <= x < pre_chat.len() && x != j implies pre_chat[x].owner_key
                        != key@ by {
                        assert(pre_chat[x].owner_key != pre_chat[j as int].owner_key);
                    }
                    assert forall|x: int| 0 <= x < pre_chat.len() && x != j implies #[trigger] self.buckets()[x]
                        == pre_chat[x] by {}
                    assert forall|x: int| 0 <= x < pre_chat.len() implies #[trigger] self.buckets()[x].owner_key
                        == pre_chat[x].owner_key by {}
                }
            },
            None => {
                let mut recent: Vec<ChatLine> = Vec::new();
                recent.push(line);
                assert(lines_view(recent@) =~= seq![lv]);
                messages = dup_lines(&recent);
                self.chat.push(ChatBucket { owner_key: key, recent, dismissed: false });
                proof {
                    assert forall|x: int| 0 <= x < pre_chat.len() implies pre_chat[x].owner_key
                        != key@ by {}
                    assert forall|x: int| 0 <= x < pre_chat.len() implies #[trigger] self.buckets()[x]
                        == pre_chat[x] by {}
                }
            },
        }
        assert(lines_view(messages@) == lines);
        assert(keys_unique(self.buckets()));
        assert(forall|x: int|
            0 <= x < self.buckets().len() ==> #[trigger] self.buckets()[x].recent.len()
                <= CHAT_HISTORY_LIMIT);
        let latest = if messages.len() > 0 {
            messages[messages.len() - 1].text.clone()
        } else {
            String::new()
        };
        assert(lines.len() > 0);
        assert(latest@ == lines.last().0);
        let ghost pre_open = self.bubbles();
        match self.find(id.as_str()) {
            Some(i) => {
                let mut b = self.open[i].duplicate();
                b.owner = event.owner;
                b.source = event.source;
                b.text = latest;
                b.messages = messages;
                b.created_ms = event.created_ms;
                b.hovered = false;
                self.open.set(i, b);
                proof {
                    assert forall|x: int| 0 <= x < pre_open.len() && x != i implies pre_open[x].id
                        != id@ by {
                        assert(pre_open[x].id != pre_open[i as int].id);
                    }
                    assert forall|x: int| 0 <= x < pre_open.len() && x != i implies #[trigger] self.bubbles()[x]
                        == pre_open[x] by {}
                    assert forall|x: int| 0 <= x < pre_open.len() implies #[trigger] self.bubbles()[x].id
                        == pre_open[x].id by {}
                }
                (id, false, true)
            },
            None => {
                let b = OpenBubble {
                    id: id.clone(),
                    owner: event.owner,
                    source: event.source,
                    mode: BubbleMode::Chat,
                    text: latest,
                    messages,
                    ttl_ms: 0,
                    created_ms: event.created_ms,
                    hovered: false,
                };
                self.open.push(b);
                proof {
                    assert forall|x: int| 0 <= x < pre_open.len() implies #[trigger] self.bubbles()[x]
                        == pre_open[x] by {}
                    assert forall|x: int| 0 <= x < pre_open.len() implies pre_open[x].id != id@ by {}
                }
                (id, true, false)
            },
        }
    }
}

/// The hook bubble that an event opens: one message, not hovered.
pub open spec fn hook_bubble(event: BubbleEvent) -> OpenBubbleV {
    OpenBubbleV {
        id: event.id@,
        owner: event.owner@,
        source: event.source,
        mode: BubbleMode::Hook,
        text: event.text@,
        messages: seq![(event.text@, event.created_ms)],
        ttl_ms: event.ttl_ms,
        created_ms: event.created_ms,
        hovered: false,
    }
}

/// The owner key of the bubble with this id.
pub open spec fn owner_key_of(s: Seq<OpenBubbleV>, id: Seq<char>) -> Seq<char> {
    let i = choose|i: int| 0 <= i < s.len() && #[trigger] s[i].id == id;
    s[i].owner.key()
}

pub proof fn lemma_owner_key_of(s: Seq<OpenBubbleV>, id: Seq<char>, k: int)
    requires
        ids_unique(s),
        0 <= k < s.len(),
        s[k].id == id,
    ensures
        owner_key_of(s, id) == s[k].owner.key(),
{
    let i = choose|i: int| 0 <= i < s.len() && #[trigger] s[i].id == id;
    if i != k {
        assert(s[i].id != s[k].id);
    }
}

/// Local bubbles are always active; a peer's bubble is active while its
/// peer id is among the connected peers.
pub open spec fn owner_is_active(owner: OwnerV, active: Seq<String>) -> bool {
    match owner {
        OwnerV::Local => true,
        OwnerV::Peer { peer_id, .. } => exists|k: int|
            0 <= k < active.len() && #[trigger] active[k]@ == peer_id,
    }
}

/// The lines the owner of `event` keeps after it: the previous lines of its
/// bucket (none when it had no bucket) and the new one, cut to the limit.
pub open spec fn bucket_lines(buckets: Seq<ChatBucketV>, event: BubbleEvent) -> Seq<(Seq<char>, u64)> {
    let key = event.owner@.key();
    let line = (event.text@, event.created_ms);
    if has_bucket(buckets, key) {
        let i = choose|i: int| 0 <= i < buckets.len() && #[trigger] buckets[i].owner_key == key;
        keep_recent(buckets[i].recent.push(line))
    } else {
        seq![line]
    }
}

pub proof fn lemma_bucket_index(buckets: Seq<ChatBucketV>, key: Seq<char>, j: int)
    requires
        keys_unique(buckets),
        0 <= j < buckets.len(),
        buckets[j].owner_key == key,
    ensures
        (choose|i: int| 0 <= i < buckets.len() && #[trigger] buckets[i].owner_key == key) == j,
{
    let i = choose|i: int| 0 <= i < buckets.len() && #[trigger] buckets[i].owner_key == key;
    if i != j {
        assert(buckets[i].owner_key != buckets[j].owner_key);
    }
}

/// The chat history after a line of `event`: the owner's bucket (created
/// when missing) holds [`bucket_lines`] and is no longer dismissed; every
/// other bucket is unchanged.
pub open spec fn chat_bucket_updated(pre: Seq<ChatBucketV>, post: Seq<ChatBucketV>, event: BubbleEvent) -> bool {
    let key = event.owner@.key();
    let lines = bucket_lines(pre, event);
    let had = has_bucket(pre, key);
    &&& had ==> post.len() == pre.len()
    &&& !had ==> post.len() == pre.len() + 1 && post.last() == ChatBucketV {
        owner_key: key,
        recent: lines,
        dismissed: false,
    }
    &&& forall|i: int|
        0 <= i < pre.len() ==> #[trigger] post[i] == (if pre[i].owner_key == key {
            ChatBucketV { owner_key: key, recent: lines, dismissed: false }
        } else {
            pre[i]
        })
}

/// The open bubbles after a line of `event`: the owner's chat bubble shows
/// `lines` (its text is the newest line) and is refreshed, keeping its id,
/// mode and lifetime; a new chat bubble is created when there was none;
/// every other bubble is unchanged.
pub open spec fn chat_bubble_updated(
    pre: Seq<OpenBubbleV>,
    post: Seq<OpenBubbleV>,
    event: BubbleEvent,
    lines: Seq<(Seq<char>, u64)>,
) -> bool {
    let id = event.owner@.chat_id();
    let had = has_open(pre, id);
    &&& had ==> post.len() == pre.len()
    &&& !had ==> post.len() == pre.len() + 1 && post.last() == OpenBubbleV {
        id,
        owner: event.owner@,
        source: event.source,
        mode: BubbleMode::Chat,
        text: lines.last().0,
        messages: lines,
        ttl_ms: 0,
        created_ms: event.created_ms,
        hovered: false,
    }
    &&& forall|i: int|
        0 <= i < pre.len() ==> #[trigger] post[i] == (if pre[i].id == id {
            OpenBubbleV {
                owner: event.owner@,
                source: event.source,
                text: lines.last().0,
                messages: lines,
                created_ms: event.created_ms,
                hovered: false,
                ..pre[i]
            }
        } else {
            pre[i]
        })
}

/// Whether `id` is one of `ids`.
pub fn contains_string(ids: &Vec<String>, id: &str) -> (r: bool)
    ensures
        r == exists|k: int| 0 <= k < ids@.len() && #[trigger] ids@[k]@ == id@,
{
    let mut k: usize = 0;
    while k < ids.len()
        invariant
            k <= ids@.len(),
            forall|j: int| 0 <= j < k ==> ids@[j]@ != id@,
        decreases ids.len() - k,
    {
        if str_eq(ids[k].as_str(), id) {
            return true;
        }
        k += 1;
    }
    false
}

/// Every element that a filter keeps is an element of the sequence.
pub proof fn lemma_filter_elem<A>(s: Seq<A>, p: spec_fn(A) -> bool, k: int)
    requires
        0 <= k < s.filter(p).len(),
    ensures
        exists|m: int| 0 <= m < s.len() && s[m] == s.filter(p)[k],
    decreases s.len(),
{
    reveal_with_fuel(Seq::filter, 1);
    if s.len() > 0 {
        let t = s.drop_last();
        let f = t.filter(p);
        if p(s.last()) && k == f.len() {
            assert(s[s.len() - 1] == s.filter(p)[k]);
        } else {
            lemma_filter_elem(t, p, k);
            let m = choose|m: int| 0 <= m < t.len() && t[m] == f[k];
            assert(s[m] == t[m]);
        }
    }
}

/// Keeping some bubbles keeps their ids distinct.
pub proof fn lemma_filter_keeps_unique(s: Seq<OpenBubbleV>, p: spec_fn(OpenBubbleV) -> bool)
    requires
        ids_unique(s),
    ensures
        ids_unique(s.filter(p)),
    decreases s.len(),
{
    reveal_with_fuel(Seq::filter, 1);
    if s.len() > 0 {
        let t = s.drop_last();
        assert(ids_unique(t)) by {
            assert forall|i: int, j: int|
                0 <= i < t.len() && 0 <= j < t.len() && i != j implies t[i].id != t[j].id by {
                assert(t[i] == s[i] && t[j] == s[j]);
            }
        }
        lemma_filter_keeps_unique(t, p);
        let f = t.filter(p);
        if p(s.last()) {
            assert forall|k: int| 0 <= k < f.len() implies f[k].id != s.last().id by {
                lemma_filter_elem(t, p, k);
                let m = choose|m: int| 0 <= m < t.len() && t[m] == f[k];
                assert(s[m] == t[m]);
                assert(s[m].id != s[s.len() - 1].id);
            }
        }
    }
}

// ---------------------------------------------------------------------------
// layout order and spool directories
// ---------------------------------------------------------------------------

pub open spec fn rank_of(m: BubbleMode) -> int {
    if m == BubbleMode::Chat {
        0
    } else {
        1
    }
}

/// The order bubbles are laid out in: by owner, chat before hook, older
/// first, then by id.
pub open spec fn layout_lt(a: OpenBubbleV, b: OpenBubbleV) -> bool {
    ||| lex_lt(a.owner.key(), b.owner.key())
    ||| (a.owner.key() == b.owner.key() && rank_of(a.mode) < rank_of(b.mode))
    ||| (a.owner.key() == b.owner.key() && rank_of(a.mode) == rank_of(b.mode) && a.created_ms
        < b.created_ms)
    ||| (a.owner.key() == b.owner.key() && rank_of(a.mode) == rank_of(b.mode) && a.created_ms
        == b.created_ms && lex_lt(a.id, b.id))
}

pub open spec fn layout_sorted(s: Seq<OpenBubbleV>) -> bool {
    forall|i: int, j: int| 0 <= i < j < s.len() ==> layout_lt(#[trigger] s[i], #[trigger] s[j])
}

proof fn lemma_layout_total(a: OpenBubbleV, b: OpenBubbleV)
    ensures
        a.id != b.id ==> layout_lt(a, b) || layout_lt(b, a),
        !(layout_lt(a, b) && layout_lt(b, a)),
{
    lemma_lex_total(a.owner.key(), b.owner.key());
    lemma_lex_total(a.id, b.id);
}

proof fn lemma_layout_trans(a: OpenBubbleV, b: OpenBubbleV, c: OpenBubbleV)
    requires
        layout_lt(a, b),
        layout_lt(b, c),
    ensures
        layout_lt(a, c),
{
    let (ka, kb, kc) = (a.owner.key(), b.owner.key(), c.owner.key());
    lemma_lex_total(ka, kb);
    lemma_lex_total(kb, kc);
    if lex_lt(ka, kb) && lex_lt(kb, kc) {
        lemma_lex_trans(ka, kb, kc);
    }
    if ka == kb && kb == kc && rank_of(a.mode) == rank_of(b.mode) && rank_of(b.mode) == rank_of(
        c.mode,
    ) && a.created_ms == b.created_ms && b.created_ms == c.created_ms {
        lemma_lex_trans(a.id, b.id, c.id);
    }
}

fn layout_lt_exec(a: &OpenBubble, b: &OpenBubble) -> (r: bool)
    ensures
        r == layout_lt(a@, b@),
{
    let ka = a.owner.to_key();
    let kb = b.owner.to_key();
    if lex_lt_exec(ka.as_str(), kb.as_str()) {
        return true;
    }
    if !str_eq(ka.as_str(), kb.as_str()) {
        return false;
    }
    let ra = mode_rank(a.mode);
    let rb = mode_rank(b.mode);
    if ra != rb {
        return ra < rb;
    }
    if a.created_ms != b.created_ms {
        return a.created_ms < b.created_ms;
    }
    lex_lt_exec(a.id.as_str(), b.id.as_str())
}

pub open spec fn bubbles_view(s: Seq<OpenBubble>) -> Seq<OpenBubbleV> {
    s.map_values(|b: OpenBubble| b@)
}

fn insert_layout(v: &mut Vec<OpenBubble>, x: OpenBubble)
    requires
        layout_sorted(bubbles_view(old(v)@)),
        forall|i: int|
            0 <= i < old(v)@.len() ==> (#[trigger] bubbles_view(old(v)@)[i]).id != x@.id,
    ensures
        layout_sorted(bubbles_view(final(v)@)),
        bubbles_view(final(v)@).len() == bubbles_view(old(v)@).len() + 1,
        forall|q: OpenBubbleV|
            bubbles_view(final(v)@).contains(q) <==> (bubbles_view(old(v)@).contains(q) || q
                == x@),
{
    let ghost pre = bubbles_view(v@);
    let mut p: usize = 0;
    while p < v.len() && layout_lt_exec(&v[p], &x)
        invariant
            p <= v@.len(),
            pre == bubbles_view(v@),
            forall|k: int| 0 <= k < p ==> layout_lt(#[trigger] pre[k], x@),
        decreases v.len() - p,
    {
        p += 1;
    }
    proof {
        if p < pre.len() {
            lemma_layout_total(pre[p as int], x@);
        }
    }
    let ghost xv = x@;
    v.insert(p, x);
    let ghost post = bubbles_view(v@);
    proof {
        assert(post =~= pre.insert(p as int, xv));
        assert forall|i: int, j: int| 0 <= i < j < post.len() implies layout_lt(
            #[trigger] post[i],
            #[trigger] post[j],
        ) by {
            if j < p {
                assert(post[i] == pre[i] && post[j] == pre[j]);
            } else if j == p {
                assert(post[i] == pre[i]);
            } else if i == p {
                assert(post[j] == pre[j - 1]);
                if j - 1 > p {
                    assert(layout_lt(pre[p as int], pre[j - 1]));
                    lemma_layout_trans(xv, pre[p as int], pre[j - 1]);
                }
            } else if i < p {
                assert(post[i] == pre[i] && post[j] == pre[j - 1]);
            } else {
                assert(post[i] == pre[i - 1] && post[j] == pre[j - 1]);
            }
        }
        assert forall|q: OpenBubbleV| post.contains(q) <==> (pre.contains(q) || q == xv) by {
            if post.contains(q) {
                let k = choose|k: int| 0 <= k < post.len() && post[k] == q;
                if k < p {
                    assert(pre[k] == q);
                } else if k > p {
                    assert(pre[k - 1] == q);
                }
            }
            if pre.contains(q) {
                let k = choose|k: int| 0 <= k < pre.len() && pre[k] == q;
                if k < p {
                    assert(post[k] == q);
                } else {
                    assert(post[k + 1] == q);
                }
            }
            if q == xv {
                assert(post[p as int] == q);
            }
        }
    }
}

impl BubbleStore {
    /// The open bubbles in layout order (see [`layout_lt`]).
    pub fn layout_order(&self) -> (r: Vec<OpenBubble>)
        requires
            self.wf(),
        ensures
            layout_sorted(bubbles_view(r@)),
            bubbles_view(r@).len() == self.bubbles().len(),
            forall|q: OpenBubbleV| bubbles_view(r@).contains(q) <==> self.bubbles().contains(q),
    {
        let ghost src = self.bubbles();
        let mut out: Vec<OpenBubble> = Vec::new();
        let mut i: usize = 0;
        while i < self.open.len()
            invariant
                i <= self.open@.len(),
                src == self.bubbles(),
                src == bubbles_view(self.open@),
                ids_unique(src),
                layout_sorted(bubbles_view(out@)),
                bubbles_view(out@).len() == i,
                forall|q: OpenBubbleV| bubbles_view(out@).contains(q) <==> src.take(i as int).contains(q),
            decreases self.open.len() - i,
        {
            let b = self.open[i].duplicate();
            let ghost ov = bubbles_view(out@);
            proof {
                assert(b@ == src[i as int]);
                assert forall|k: int| 0 <= k < ov.len() implies (#[trigger] ov[k]).id != b@.id by {
                    assert(ov.contains(ov[k]));
                    let j = choose|j: int| 0 <= j < i && #[trigger] src.take(i as int)[j] == ov[k];
                    assert(src[j] == ov[k]);
                }
            }
            insert_layout(&mut out, b);
            proof {
                let t1 = src.take(i + 1);
                let t0 = src.take(i as int);
                assert forall|q: OpenBubbleV| bubbles_view(out@).contains(q) <==> t1.contains(q) by {
                    if t0.contains(q) {
                        let j = choose|j: int| 0 <= j < t0.len() && t0[j] == q;
                        assert(t1[j] == q);
                    }
                    if t1.contains(q) {
                        let j = choose|j: int| 0 <= j < t1.len() && t1[j] == q;
                        if j < i {
                            assert(t0[j] == q);
                        }
                    }
                    assert(t1[i as int] == src[i as int]);
                }
            }
            i += 1;
        }
        assert(src.take(src.len() as int) =~= src);
        out
    }
}

/// The height tiers of the chat bubbles: owners listed in placement order
/// (the same owner may come several times in a row) alternate between the
/// lower tier 0 and the upper tier 1, each owner once.
pub open spec fn dedup_adjacent(s: Seq<Seq<char>>) -> Seq<Seq<char>>
    decreases s.len(),
{
    if s.len() == 0 {
        s
    } else {
        let pre = dedup_adjacent(s.drop_last());
        if pre.len() > 0 && pre.last() == s.last() {
            pre
        } else {
            pre.push(s.last())
        }
    }
}

pub proof fn lemma_dedup_adjacent_last(s: Seq<Seq<char>>)
    ensures
        s.len() > 0 ==> dedup_adjacent(s).len() > 0 && dedup_adjacent(s).last() == s.last(),
    decreases s.len(),
{
    if s.len() > 0 {
        lemma_dedup_adjacent_last(s.drop_last());
    }
}

pub fn chat_tiers(owners: &Vec<String>) -> (r: Vec<(String, u8)>)
    ensures
        r@.len() == dedup_adjacent(names_view(owners@)).len(),
        forall|i: int|
            0 <= i < r@.len() ==> (#[trigger] r@[i]).0@ == dedup_adjacent(names_view(owners@))[i]
                && r@[i].1 == (if i % 2 == 0 {
                0u8
            } else {
                1u8
            }),
{
    let ghost ov = names_view(owners@);
    let mut out: Vec<(String, u8)> = Vec::new();
    let mut i: usize = 0;
    while i < owners.len()
        invariant
            i <= owners@.len(),
            ov == names_view(owners@),
            out@.len() == dedup_adjacent(ov.take(i as int)).len(),
            forall|k: int|
                0 <= k < out@.len() ==> (#[trigger] out@[k]).0@ == dedup_adjacent(ov.take(i as int))[k]
                    && out@[k].1 == (if k % 2 == 0 {
                    0u8
                } else {
                    1u8
                }),
        decreases owners.len() - i,
    {
        let ghost t0 = ov.take(i as int);
        let ghost t1 = ov.take(i + 1);
        proof {
            assert(t1.drop_last() =~= t0);
            assert(t1.last() == owners@[i as int]@);
            lemma_dedup_adjacent_last(t0);
        }
        let n = out.len();
        let same = n > 0 && str_eq(out[n - 1].0.as_str(), owners[i].as_str());
        if !same {
            let tier: u8 = if n % 2 == 0 {
                0
            } else {
                1
            };
            out.push((owners[i].clone(), tier));
        }
        i += 1;
    }
    assert(ov.take(ov.len() as int) =~= ov);
    out
}

/// `<app dir>/bubble-spool`, where queued bubble events wait.
pub fn bubble_spool_dir(app_dir: &str) -> (r: String)
    ensures
        r@ == path_join(app_dir@, "bubble-spool"@),
{
    join_path(app_dir, "bubble-spool")
}

/// `<app dir>/chat-outbox`, where chat lines wait to be sent.
pub fn chat_outbox_dir(app_dir: &str) -> (r: String)
    ensures
        r@ == path_join(app_dir@, "chat-outbox"@),
{
    join_path(app_dir, "chat-outbox")
}

/// `<app dir>/chat-history`, where each room's history is kept.
pub fn chat_history_dir(app_dir: &str) -> (r: String)
    ensures
        r@ == path_join(app_dir@, "chat-history"@),
{
    join_path(app_dir, "chat-history")
}

/// The spool files to read, in order: the names with the extension `json`,
/// sorted, each once.
pub fn spool_files(names: &Vec<String>) -> (r: Vec<String>)
    ensures
        sorted_strict(names_view(r@)),
        forall|n: Seq<char>|
            names_view(r@).contains(n) <==> (names_view(names@).contains(n)
                && crate::remote_assets::path_extension(n) == Some("json"@)),
{
    let mut out: Vec<String> = Vec::new();
    let mut i: usize = 0;
    while i < names.len()
        invariant
            i <= names@.len(),
            sorted_strict(names_view(out@)),
            forall|n: Seq<char>|
                names_view(out@).contains(n) <==> (names_view(names@.take(i as int)).contains(n)
                    && crate::remote_assets::path_extension(n) == Some("json"@)),
        decreases names.len() - i,
    {
        let ghost before = names_view(out@);
        let is_json = match crate::remote_assets::extension_of(names[i].as_str()) {
            Some(e) => str_eq(e.as_str(), "json"),
            None => false,
        };
        if is_json {
            insert_sorted_unique(&mut out, names[i].clone());
        }
        proof {
            let t0 = names_view(names@.take(i as int));
            let t1 = names_view(names@.take(i + 1));
            assert(t1 =~= t0.push(names@[i as int]@));
            assert forall|n: Seq<char>|
                names_view(out@).contains(n) <==> (t1.contains(n)
                    && crate::remote_assets::path_extension(n) == Some("json"@)) by {
                if t0.contains(n) {
                    let k = choose|k: int| 0 <= k < t0.len() && t0[k] == n;
                    assert(t1[k] == n);
                }
                if t1.contains(n) {
                    let k = choose|k: int| 0 <= k < t1.len() && t1[k] == n;
                    if k < i {
                        assert(t0[k] == n);
                    }
                }
                assert(t1[i as int] == names@[i as int]@);
            }
        }
        i += 1;
    }
    assert(names@.take(names@.len() as int) =~= names@);
    out
}

impl BubbleStore {
    /// Shows an event: a hook event as its own bubble, a chat line in its
    /// owner's chat bubble. Returns the id of the bubble shown and whether
    /// its window has to be opened (otherwise it is updated).
    pub fn show(&mut self, event: BubbleEvent) -> (r: (String, bool))
        requires
            old(self).wf(),
        ensures
            final(self).wf(),
            event.source == BubbleSource::Hook ==> {
                &&& r.0@ == event.id@
                &&& r.1 == !has_open(old(self).bubbles(), event.id@)
                &&& final(self).buckets() == old(self).buckets()
                &&& r.1 ==> final(self).bubbles() == old(self).bubbles().push(hook_bubble(event))
                &&& !r.1 ==> final(self).bubbles() == old(self).bubbles().map_values(
                    |b: OpenBubbleV|
                        if b.id == event.id@ {
                            hook_bubble(event)
                        } else {
                            b
                        },
                )
            },
            event.source != BubbleSource::Hook ==> {
                &&& r.0@ == event.owner@.chat_id()
                &&& r.1 == !has_open(old(self).bubbles(), event.owner@.chat_id())
                &&& chat_bucket_updated(old(self).buckets(), final(self).buckets(), event)
                &&& chat_bubble_updated(
                    old(self).bubbles(),
                    final(self).bubbles(),
                    event,
                    bucket_lines(old(self).buckets(), event),
                )
            },
    {
        if event.source == BubbleSource::Hook {
            let id = event.id.clone();
            let opened = self.show_hook(event);
            (id, opened)
        } else {
            let (id, opened, _) = self.show_chat(event);
            (id, opened)
        }
    }
}

/// Only hook bubbles expire. Every bubble `expired_ids(now)` reports is a
/// hook bubble that the pointer is not over and whose `created_ms + ttl_ms`
/// has passed (`now` being the largest time when that sum overflows); every
/// such bubble is reported; and the id of a chat bubble of the store is
/// never among those reported.
pub proof fn law_only_hook_bubbles_expire(store: BubbleStore, now: u64)
    requires
        store.wf(),
    ensures
        ({
            let exp = store.bubbles().filter(|b: OpenBubbleV| b.is_expired(now));
            &&& forall|k: int|
                0 <= k < exp.len() ==> {
                    &&& (#[trigger] exp[k]).mode == BubbleMode::Hook
                    &&& !exp[k].hovered
                    &&& (exp[k].created_ms + exp[k].ttl_ms <= now || now == u64::MAX)
                }
            &&& forall|b: OpenBubbleV|
                #![trigger store.bubbles().contains(b)]
                store.bubbles().contains(b) && b.mode == BubbleMode::Hook && !b.hovered
                    && b.created_ms + b.ttl_ms <= now ==> exp.contains(b)
            &&& forall|b: OpenBubbleV|
                #![trigger store.bubbles().contains(b)]
                store.bubbles().contains(b) && b.mode == BubbleMode::Chat ==> !exp.map_values(
                    |x: OpenBubbleV| x.id,
                ).contains(b.id)
        }),
{
    broadcast use vstd::seq_lib::group_filter_ensures;

    let s = store.bubbles();
    let pred = |b: OpenBubbleV| b.is_expired(now);
    let exp = s.filter(pred);
    assert forall|k: int| 0 <= k < exp.len() implies {
        &&& (#[trigger] exp[k]).mode == BubbleMode::Hook
        &&& !exp[k].hovered
        &&& (exp[k].created_ms + exp[k].ttl_ms <= now || now == u64::MAX)
    } by {
        assert(pred(exp[k]));
    }
    assert forall|b: OpenBubbleV|
        #![trigger s.contains(b)]
        s.contains(b) && b.mode == BubbleMode::Hook && !b.hovered && b.created_ms + b.ttl_ms
            <= now implies exp.contains(b) by {
        let i = choose|i: int| 0 <= i < s.len() && s[i] == b;
        s.lemma_filter_contains(pred, i);
    }
    assert forall|b: OpenBubbleV|
        #![trigger s.contains(b)]
        s.contains(b) && b.mode == BubbleMode::Chat implies !exp.map_values(
            |x: OpenBubbleV| x.id,
        ).contains(b.id) by {
        let ids = exp.map_values(|x: OpenBubbleV| x.id);
        if ids.contains(b.id) {
            let k = choose|k: int| 0 <= k < ids.len() && #[trigger] ids[k] == b.id;
            let x = exp[k];
            assert(pred(x));
            s.lemma_filter_contains_rev(pred, x);
            let i = choose|i: int| 0 <= i < s.len() && s[i] == b;
            let j = choose|j: int| 0 <= j < s.len() && s[j] == x;
            assert(s[i].id == s[j].id);
        }
    }
}

} // verus!


