//! The windows of remote peers: their labels and URLs, the record of which
//! peer window is open with which cached sprite, and the plan that brings
//! the open windows in line with the table of peers (close, replace the
//! sprite, open, or pass on a new state).
use vstd::prelude::*;

use crate::bubbles::{url_encode_spec, urlencoding};
use crate::remote::{lookup, opt_view, PeerSnapshot, PeerSnapshotV, PeerTable, snaps_view};
use crate::remote_assets::{asset_id_hint, asset_id_spec, CachedAssets};
use crate::text::{filter_safe, owned, push_str, safe_filter, str_eq};

verus! {

/// `peer-<peer id>`, the id cut down to ASCII letters, digits, `-` and `_`.
pub fn window_label(peer_id: &str) -> (r: String)
    ensures
        r@ == "peer-"@ + safe_filter(peer_id@),
{
    let mut r = owned("peer-");
    let safe = filter_safe(peer_id);
    push_str(&mut r, safe.as_str());
    r
}

/// The page a peer window shows: `peer.html#<peer id, url-encoded>`.
pub fn peer_window_url(peer_id: &str) -> (r: String)
    ensures
        r@ == "peer.html#"@ + url_encode_spec(peer_id@),
{
    let mut r = owned("peer.html#");
    let e = urlencoding(peer_id);
    push_str(&mut r, e.as_str());
    r
}

/// Where a peer window goes relative to the local pet, read off a hash of
/// the peer id: on the right when the hash is even (on the left when odd),
/// nudged by `-20..=20` across (from the bits above the lowest) and by
/// `-20..=20` down (from the bits above the ninth).
pub fn peer_offset(h: u64) -> (r: (bool, i64, i64))
    ensures
        r.0 == (h % 2 == 0),
        r.1 == (h / 2) % 41 - 20,
        r.2 == (h / 512) % 41 - 20,
        -20 <= r.1 <= 20,
        -20 <= r.2 <= 20,
{
    let dx = ((h / 2) % 41) as i64 - 20;
    let dy = ((h / 512) % 41) as i64 - 20;
    (h % 2 == 0, dx, dy)
}

/// A peer window that is open, with the sprite it shows.
#[derive(Debug, Clone)]
pub struct OpenPeer {
    pub peer_id: String,
    pub asset_id: String,
    pub sprite_name: String,
    pub sprite_path: String,
    pub json_path: String,
    pub config_path: Option<String>,
    pub state: String,
}

pub struct OpenPeerV {
    pub peer_id: Seq<char>,
    pub asset_id: Seq<char>,
    pub sprite_name: Seq<char>,
    pub sprite_path: Seq<char>,
    pub json_path: Seq<char>,
    pub config_path: Option<Seq<char>>,
    pub state: Seq<char>,
}

impl View for OpenPeer {
    type V = OpenPeerV;

    open spec fn view(&self) -> OpenPeerV {
        OpenPeerV {
            peer_id: self.peer_id@,
            asset_id: self.asset_id@,
            sprite_name: self.sprite_name@,
            sprite_path: self.sprite_path@,
            json_path: self.json_path@,
            config_path: opt_view(self.config_path),
            state: self.state@,
        }
    }
}

/// What a peer window asks for when it opens.
#[derive(Debug, Clone)]
pub struct PeerInit {
    pub peer_id: String,
    pub sprite: String,
    pub state: String,
    pub sprite_path_abs: String,
    pub json_path_abs: String,
    pub config_path_abs: Option<String>,
    /// The local pet's scale when the window opened.
    pub scale_millis: u16,
}

/// The record of a peer window opened for `snap` with the assets `cached`;
/// a peer without a state starts `idle`.
pub fn open_peer_from(snap: &PeerSnapshot, cached: &CachedAssets) -> (r: OpenPeer)
    ensures
        r@.peer_id == snap@.peer_id,
        r@.asset_id == cached.asset_id@,
        r@.sprite_name == snap@.sprite,
        r@.sprite_path == cached.sprite_path@,
        r@.json_path == cached.json_path@,
        r@.config_path == opt_view(cached.config_path),
        r@.state == (if snap@.state.len() == 0 {
            "idle"@
        } else {
            snap@.state
        }),
{
    OpenPeer {
        peer_id: snap.peer_id.clone(),
        asset_id: cached.asset_id.clone(),
        sprite_name: snap.sprite.clone(),
        sprite_path: cached.sprite_path.clone(),
        json_path: cached.json_path.clone(),
        config_path: match &cached.config_path {
            Some(p) => Some(p.clone()),
            None => None,
        },
        state: if snap.state.as_str().is_empty() {
            owned("idle")
        } else {
            snap.state.clone()
        },
    }
}

pub open spec fn open_view(s: Seq<OpenPeer>) -> Seq<OpenPeerV> {
    s.map_values(|p: OpenPeer| p@)
}

pub open spec fn open_ids_unique(s: Seq<OpenPeerV>) -> bool {
    forall|i: int, j: int|
        0 <= i < j < s.len() ==> (#[trigger] s[i]).peer_id != (#[trigger] s[j]).peer_id
}

/// The open window of peer `id`.
pub open spec fn open_lookup(s: Seq<OpenPeerV>, id: Seq<char>) -> Option<OpenPeerV> {
    if exists|i: int| 0 <= i < s.len() && #[trigger] s[i].peer_id == id {
        Some(s[choose|i: int| 0 <= i < s.len() && #[trigger] s[i].peer_id == id])
    } else {
        None
    }
}

pub proof fn lemma_open_lookup(s: Seq<OpenPeerV>, i: int)
    requires
        open_ids_unique(s),
        0 <= i < s.len(),
    ensures
        open_lookup(s, s[i].peer_id) == Some(s[i]),
{
    let id = s[i].peer_id;
    assert(exists|j: int| 0 <= j < s.len() && #[trigger] s[j].peer_id == id);
    let j = choose|j: int| 0 <= j < s.len() && #[trigger] s[j].peer_id == id;
    if j != i {
        if j < i {
            assert(s[j].peer_id != s[i].peer_id);
        } else {
            assert(s[i].peer_id != s[j].peer_id);
        }
    }
}

/// The peer windows that are open, each under its peer's id.
pub struct OpenPeers {
    entries: Vec<OpenPeer>,
}

impl View for OpenPeers {
    type V = Seq<OpenPeerV>;

    closed spec fn view(&self) -> Seq<OpenPeerV> {
        open_view(self.entries@)
    }
}

impl OpenPeers {
    pub open spec fn wf(&self) -> bool {
        open_ids_unique(self@)
    }

    pub fn new() -> (r: Self)
        ensures
            r.wf(),
            r@.len() == 0,
    {
        let r = OpenPeers { entries: Vec::new() };
        assert(r@ =~= Seq::<OpenPeerV>::empty());
        r
    }

    fn index_of(&self, peer_id: &str) -> (r: Option<usize>)
        requires
            self.wf(),
        ensures
            match r {
                Some(i) => i < self@.len() && self@[i as int].peer_id == peer_id@,
                None => open_lookup(self@, peer_id@) is None,
            },
    {
        let mut i: usize = 0;
        while i < self.entries.len()
            invariant
                i <= self@.len(),
                self@ == open_view(self.entries@),
                forall|k: int| 0 <= k < i ==> #[trigger] self@[k].peer_id != peer_id@,
            decreases self.entries.len() - i,
        {
            if str_eq(self.entries[i].peer_id.as_str(), peer_id) {
                return Some(i);
            }
            i += 1;
        }
        None
    }

    /// What the window of peer `peer_id` needs to start, with the local
    /// pet's scale.
    pub fn get_init(&self, peer_id: &str, scale_millis: u16) -> (r: Option<PeerInit>)
        requires
            self.wf(),
        ensures
            match open_lookup(self@, peer_id@) {
                None => r is None,
                Some(e) => r matches Some(init) && {
                    &&& init.peer_id@ == peer_id@
                    &&& init.sprite@ == e.sprite_name
                    &&& init.state@ == e.state
                    &&& init.sprite_path_abs@ == e.sprite_path
                    &&& init.json_path_abs@ == e.json_path
                    &&& opt_view(init.config_path_abs) == e.config_path
                    &&& init.scale_millis == scale_millis
                },
            },
    {
        match self.index_of(peer_id) {
            None => None,
            Some(i) => {
                proof {
                    lemma_open_lookup(self@, i as int);
                }
                let e = &self.entries[i];
                Some(
                    PeerInit {
                        peer_id: owned(peer_id),
                        sprite: e.sprite_name.clone(),
                        state: e.state.clone(),
                        sprite_path_abs: e.sprite_path.clone(),
                        json_path_abs: e.json_path.clone(),
                        config_path_abs: match &e.config_path {
                            Some(p) => Some(p.clone()),
                            None => None,
                        },
                        scale_millis,
                    },
                )
            },
        }
    }

    /// Records the window of `peer.peer_id`, replacing an earlier record.
    pub fn insert(&mut self, peer: OpenPeer)
        requires
            old(self).wf(),
        ensures
            final(self).wf(),
            forall|k: Seq<char>|
                #[trigger] open_lookup(final(self)@, k) == (if k == peer@.peer_id {
                    Some(peer@)
                } else {
                    open_lookup(old(self)@, k)
                }),
    {
        let ghost pre = self@;
        let ghost pv = peer@;
        match self.index_of(peer.peer_id.as_str()) {
            Some(i) => {
                self.entries.set(i, peer);
                let ghost post = self@;
                proof {
                    assert(post =~= pre.update(i as int, pv));
                    assert forall|a: int, b: int| 0 <= a < b < post.len() implies (
                    #[trigger] post[a]).peer_id != (#[trigger] post[b]).peer_id by {
                        assert(pre[a].peer_id == post[a].peer_id);
                        assert(pre[b].peer_id == post[b].peer_id);
                    }
                    assert forall|k: Seq<char>| #[trigger]
                        open_lookup(post, k) == (if k == pv.peer_id {
                            Some(pv)
                        } else {
                            open_lookup(pre, k)
                        }) by {
                        if k == pv.peer_id {
                            lemma_open_lookup(post, i as int);
                        } else if exists|j: int| 0 <= j < pre.len() && #[trigger] pre[j].peer_id == k {
                            let j = choose|j: int| 0 <= j < pre.len() && #[trigger] pre[j].peer_id == k;
                            lemma_open_lookup(pre, j);
                            lemma_open_lookup(post, j);
                        } else {
                            assert forall|j: int| 0 <= j < post.len() implies #[trigger] post[j].peer_id
                                != k by {
                                if j != i {
                                    assert(post[j] == pre[j]);
                                }
                            }
                        }
                    }
                }
            },
            None => {
                self.entries.push(peer);
                let ghost post = self@;
                proof {
                    assert(post =~= pre.push(pv));
                    assert forall|a: int, b: int| 0 <= a < b < post.len() implies (
                    #[trigger] post[a]).peer_id != (#[trigger] post[b]).peer_id by {
                        if b == pre.len() {
                            assert(post[a] == pre[a]);
                            if pre[a].peer_id == pv.peer_id {
                                assert(exists|j: int|
                                    0 <= j < pre.len() && #[trigger] pre[j].peer_id == pv.peer_id);
                            }
                        } else {
                            assert(post[a] == pre[a] && post[b] == pre[b]);
                        }
                    }
                    assert forall|k: Seq<char>| #[trigger]
                        open_lookup(post, k) == (if k == pv.peer_id {
                            Some(pv)
                        } else {
                            open_lookup(pre, k)
                        }) by {
                        if k == pv.peer_id {
                            lemma_open_lookup(post, pre.len() as int);
                        } else if exists|j: int| 0 <= j < pre.len() && #[trigger] pre[j].peer_id == k {
                            let j = choose|j: int| 0 <= j < pre.len() && #[trigger] pre[j].peer_id == k;
                            lemma_open_lookup(pre, j);
                            assert(post[j] == pre[j]);
                            lemma_open_lookup(post, j);
                        } else {
                            assert forall|j: int| 0 <= j < post.len() implies #[trigger] post[j].peer_id
                                != k by {
                                if j < pre.len() {
                                    assert(post[j] == pre[j]);
                                }
                            }
                        }
                    }
                }
            },
        }
    }

    /// Forgets the window of peer `peer_id`.
    pub fn remove(&mut self, peer_id: &str)
        requires
            old(self).wf(),
        ensures
            final(self).wf(),
            forall|k: Seq<char>|
                #[trigger] open_lookup(final(self)@, k) == (if k == peer_id@ {
                    None
                } else {
                    open_lookup(old(self)@, k)
                }),
    {
        let ghost pre = self@;
        match self.index_of(peer_id) {
            None => {},
            Some(i) => {
                self.entries.remove(i);
                let ghost post = self@;
                proof {
                    assert(post =~= pre.remove(i as int));
                    assert forall|a: int, b: int| 0 <= a < b < post.len() implies (
                    #[trigger] post[a]).peer_id != (#[trigger] post[b]).peer_id by {
                        if b < i {
                            assert(post[a] == pre[a] && post[b] == pre[b]);
                        } else if a < i {
                            assert(post[a] == pre[a] && post[b] == pre[b + 1]);
                        } else {
                            assert(post[a] == pre[a + 1] && post[b] == pre[b + 1]);
                        }
                    }
                    assert forall|k: Seq<char>| #[trigger]
                        open_lookup(post, k) == (if k == peer_id@ {
                            None
                        } else {
                            open_lookup(pre, k)
                        }) by {
                        if exists|j: int| 0 <= j < post.len() && #[trigger] post[j].peer_id == k {
                            let j = choose|j: int| 0 <= j < post.len() && #[trigger] post[j].peer_id == k;
                            lemma_open_lookup(post, j);
                            let pj = if j < i {
                                j
                            } else {
                                j + 1
                            };
                            assert(post[j] == pre[pj]);
                            lemma_open_lookup(pre, pj);
                            if k == peer_id@ {
                                if pj < i {
                                    assert(pre[pj].peer_id != pre[i as int].peer_id);
                                } else {
                                    assert(pre[i as int].peer_id != pre[pj].peer_id);
                                }
                            }
                        } else if k != peer_id@ {
                            assert forall|j: int| 0 <= j < pre.len() implies #[trigger] pre[j].peer_id
                                != k by {
                                if j < i {
                                    assert(post[j] == pre[j]);
                                } else if j > i {
                                    assert(post[j - 1] == pre[j]);
                                }
                            }
                        }
                    }
                }
            },
        }
    }

    /// Records a new state for the window of `peer_id`; returns whether it
    /// is open.
    pub fn set_state(&mut self, peer_id: &str, state: String) -> (r: bool)
        requires
            old(self).wf(),
        ensures
            final(self).wf(),
            r == open_lookup(old(self)@, peer_id@) is Some,
            forall|k: Seq<char>|
                #[trigger] open_lookup(final(self)@, k) == (if k == peer_id@ && r {
                    Some(OpenPeerV { state: state@, ..open_lookup(old(self)@, k)->0 })
                } else {
                    open_lookup(old(self)@, k)
                }),
    {
        match self.index_of(peer_id) {
            None => false,
            Some(i) => {
                proof {
                    lemma_open_lookup(self@, i as int);
                }
                let mut e = self.entries[i].clone_peer();
                e.state = state;
                self.insert(e);
                true
            },
        }
    }

    /// The ids of the open windows.
    pub fn ids(&self) -> (r: Vec<String>)
        ensures
            r@.len() == self@.len(),
            forall|i: int| 0 <= i < r@.len() ==> (#[trigger] r@[i])@ == self@[i].peer_id,
    {
        let mut out: Vec<String> = Vec::new();
        let mut i: usize = 0;
        while i < self.entries.len()
            invariant
                i <= self@.len(),
                self@ == open_view(self.entries@),
                out@.len() == i,
                forall|k: int| 0 <= k < i ==> (#[trigger] out@[k])@ == self@[k].peer_id,
            decreases self.entries.len() - i,
        {
            out.push(self.entries[i].peer_id.clone());
            i += 1;
        }
        out
    }

    pub fn clear(&mut self)
        ensures
            final(self).wf(),
            final(self)@.len() == 0,
    {
        self.entries = Vec::new();
        assert(self@ =~= Seq::<OpenPeerV>::empty());
    }
}

impl OpenPeer {
    pub fn clone_peer(&self) -> (r: Self)
        ensures
            r@ == self@,
    {
        OpenPeer {
            peer_id: self.peer_id.clone(),
            asset_id: self.asset_id.clone(),
            sprite_name: self.sprite_name.clone(),
            sprite_path: self.sprite_path.clone(),
            json_path: self.json_path.clone(),
            config_path: match &self.config_path {
                Some(p) => Some(p.clone()),
                None => None,
            },
            state: self.state.clone(),
        }
    }
}

/// How the open peer windows are brought in line with the table of peers:
/// windows of peers that left are closed; a peer whose sprite changed gets
/// its window rebuilt once the new sprite is cached; a new peer with both
/// asset URLs gets a window; otherwise a changed state is passed on.
pub struct SyncPlan {
    pub to_close: Vec<String>,
    pub to_replace: Vec<PeerSnapshot>,
    pub to_open: Vec<PeerSnapshot>,
    /// Peer ids with their new states.
    pub state_changes: Vec<(String, String)>,
}

pub open spec fn urls_present(p: PeerSnapshotV) -> bool {
    p.sprite_url.len() > 0 && p.json_url.len() > 0
}

/// The peer's sprite URL names another cached sprite than its window shows.
pub open spec fn sprite_swapped(p: PeerSnapshotV, e: OpenPeerV) -> bool {
    asset_id_spec(p.sprite_url) matches Some(id) && id != e.asset_id
}

pub open spec fn plan_opens(open: Seq<OpenPeerV>, p: PeerSnapshotV) -> bool {
    open_lookup(open, p.peer_id) is None && urls_present(p)
}

pub open spec fn plan_replaces(open: Seq<OpenPeerV>, p: PeerSnapshotV) -> bool {
    open_lookup(open, p.peer_id) matches Some(e) && sprite_swapped(p, e) && urls_present(p)
}

pub open spec fn plan_restates(open: Seq<OpenPeerV>, p: PeerSnapshotV) -> bool {
    open_lookup(open, p.peer_id) matches Some(e) && !(sprite_swapped(p, e) && urls_present(p))
        && p.state != e.state
}

pub open spec fn plan_closes(live: Seq<PeerSnapshotV>, e: OpenPeerV) -> bool {
    lookup(live, e.peer_id) is None
}

pub open spec fn closing_ids(open: Seq<OpenPeerV>, live: Seq<PeerSnapshotV>) -> Seq<Seq<char>> {
    open.filter(|e: OpenPeerV| plan_closes(live, e)).map_values(|e: OpenPeerV| e.peer_id)
}

pub open spec fn state_pairs(s: Seq<PeerSnapshotV>) -> Seq<(Seq<char>, Seq<char>)> {
    s.map_values(|p: PeerSnapshotV| (p.peer_id, p.state))
}

pub open spec fn string_pairs_view(v: Seq<(String, String)>) -> Seq<(Seq<char>, Seq<char>)> {
    v.map_values(|p: (String, String)| (p.0@, p.1@))
}

pub open spec fn strings_view(v: Seq<String>) -> Seq<Seq<char>> {
    v.map_values(|s: String| s@)
}

impl OpenPeers {
    /// The plan for the open windows given the table of peers.
    pub fn sync_plan(&self, peers: &PeerTable) -> (r: SyncPlan)
        requires
            self.wf(),
            peers.wf(),
        ensures
            strings_view(r.to_close@) == closing_ids(self@, peers@),
            snaps_view(r.to_replace@) == peers@.filter(|p: PeerSnapshotV| plan_replaces(self@, p)),
            snaps_view(r.to_open@) == peers@.filter(|p: PeerSnapshotV| plan_opens(self@, p)),
            string_pairs_view(r.state_changes@) == state_pairs(
                peers@.filter(|p: PeerSnapshotV| plan_restates(self@, p)),
            ),
    {
        let ghost open = self@;
        let ghost live = peers@;
        let mut to_close: Vec<String> = Vec::new();
        let mut i: usize = 0;
        while i < self.entries.len()
            invariant
                i <= open.len(),
                open == self@,
                open == open_view(self.entries@),
                live == peers@,
                peers.wf(),
                strings_view(to_close@) == closing_ids(open.take(i as int), live),
            decreases self.entries.len() - i,
        {
            let ghost t0 = open.take(i as int);
            let ghost x = open[i as int];
            let ghost before = strings_view(to_close@);
            proof {
                assert(open.take(i + 1) =~= t0.push(x));
                t0.lemma_filter_push(x, |e: OpenPeerV| plan_closes(live, e));
            }
            let gone = peers.get(self.entries[i].peer_id.as_str()).is_none();
            if gone {
                to_close.push(self.entries[i].peer_id.clone());
                assert(strings_view(to_close@) =~= before.push(x.peer_id));
            }
            assert(strings_view(to_close@) =~= closing_ids(open.take(i + 1), live));
            i += 1;
        }
        assert(open.take(open.len() as int) =~= open);
        let list = peers.to_list();
        let mut to_replace: Vec<PeerSnapshot> = Vec::new();
        let mut to_open: Vec<PeerSnapshot> = Vec::new();
        let mut state_changes: Vec<(String, String)> = Vec::new();
        let mut j: usize = 0;
        while j < list.len()
            invariant
                j <= live.len(),
                snaps_view(list@) == live,
                open == self@,
                self.wf(),
                snaps_view(to_replace@) == live.take(j as int).filter(
                    |p: PeerSnapshotV| plan_replaces(open, p),
                ),
                snaps_view(to_open@) == live.take(j as int).filter(
                    |p: PeerSnapshotV| plan_opens(open, p),
                ),
                string_pairs_view(state_changes@) == state_pairs(
                    live.take(j as int).filter(|p: PeerSnapshotV| plan_restates(open, p)),
                ),
            decreases list.len() - j,
        {
            let snap = &list[j];
            let ghost x = live[j as int];
            let ghost t0 = live.take(j as int);
            let ghost rv = snaps_view(to_replace@);
            let ghost ov = snaps_view(to_open@);
            let ghost sv = string_pairs_view(state_changes@);
            proof {
                assert(snap@ == x);
                assert(live.take(j + 1) =~= t0.push(x));
                t0.lemma_filter_push(x, |p: PeerSnapshotV| plan_replaces(open, p));
                t0.lemma_filter_push(x, |p: PeerSnapshotV| plan_opens(open, p));
                t0.lemma_filter_push(x, |p: PeerSnapshotV| plan_restates(open, p));
            }
            let urls = !snap.sprite_url.as_str().is_empty() && !snap.json_url.as_str().is_empty();
            match self.index_of(snap.peer_id.as_str()) {
                None => {
                    if urls {
                        to_open.push(snap.duplicate());
                        assert(snaps_view(to_open@) =~= ov.push(x));
                    }
                },
                Some(k) => {
                    proof {
                        lemma_open_lookup(open, k as int);
                    }
                    let entry = &self.entries[k];
                    let swapped = match asset_id_hint(snap.sprite_url.as_str()) {
                        Some(id) => !str_eq(id.as_str(), entry.asset_id.as_str()),
                        None => false,
                    };
                    if swapped && urls {
                        to_replace.push(snap.duplicate());
                        assert(snaps_view(to_replace@) =~= rv.push(x));
                    } else if !str_eq(snap.state.as_str(), entry.state.as_str()) {
                        state_changes.push((snap.peer_id.clone(), snap.state.clone()));
                        assert(string_pairs_view(state_changes@) =~= sv.push((x.peer_id, x.state)));
                    }
                },
            }
            proof {
                let f1 = t0.filter(|p: PeerSnapshotV| plan_restates(open, p));
                assert(state_pairs(f1.push(x)) =~= state_pairs(f1).push((x.peer_id, x.state)));
            }
            j += 1;
        }
        assert(live.take(live.len() as int) =~= live);
        SyncPlan { to_close, to_replace, to_open, state_changes }
    }
}

/// The plan treats each peer once: a peer whose window is opened is neither
/// rebuilt nor sent a state, and a rebuilt one is not sent a state; a window
/// is closed exactly when its peer is gone.
pub proof fn law_sync_plan_exclusive(open: Seq<OpenPeerV>, live: Seq<PeerSnapshotV>, p: PeerSnapshotV, e: OpenPeerV)
    ensures
        plan_opens(open, p) ==> !plan_replaces(open, p) && !plan_restates(open, p),
        plan_replaces(open, p) ==> !plan_restates(open, p),
        plan_closes(live, e) <==> lookup(live, e.peer_id) is None,
{
}

/// The content id a peer's window is opened with once its assets are
/// cached: the one of its sprite URL, else the one of its manifest URL.
pub open spec fn downloaded_id(p: PeerSnapshotV) -> Seq<char> {
    match asset_id_spec(p.sprite_url) {
        Some(id) => id,
        None => match asset_id_spec(p.json_url) {
            Some(id) => id,
            None => Seq::empty(),
        },
    }
}

/// The state a peer's window opens in.
pub open spec fn opened_state(st: Seq<char>) -> Seq<char> {
    if st.len() == 0 {
        "idle"@
    } else {
        st
    }
}

/// `e2` is the window of peer `p` once the plan made against `open` was
/// carried out with every download and window build succeeding: opened or
/// rebuilt with the cached sprite, given its new state, or left as it was.
pub open spec fn applied_entry(open: Seq<OpenPeerV>, p: PeerSnapshotV, e2: Option<OpenPeerV>) -> bool {
    if plan_opens(open, p) || plan_replaces(open, p) {
        e2 matches Some(x) && x.asset_id == downloaded_id(p) && x.state == opened_state(p.state)
    } else if plan_restates(open, p) {
        e2 matches Some(x) && x.asset_id == open_lookup(open, p.peer_id)->0.asset_id && x.state
            == p.state
    } else {
        e2 == open_lookup(open, p.peer_id)
    }
}

proof fn lemma_filter_none<A>(s: Seq<A>, pred: spec_fn(A) -> bool)
    requires
        forall|i: int| 0 <= i < s.len() ==> !pred(#[trigger] s[i]),
    ensures
        s.filter(pred).len() == 0,
    decreases s.len(),
{
    reveal_with_fuel(Seq::filter, 1);
    if s.len() > 0 {
        lemma_filter_none(s.drop_last(), pred);
    }
}

/// Once a whole sync plan has been carried out (every window it closes
/// gone, every download and window build it asks for done), a second sync
/// against the same peers plans nothing: no window is closed, opened or
/// rebuilt, and no state is sent. Peers without a state are left out: their
/// windows open as `idle`, which differs from the empty state, so each sync
/// sends it again.
pub proof fn law_sync_plan_settles(open: Seq<OpenPeerV>, open2: Seq<OpenPeerV>, live: Seq<PeerSnapshotV>)
    requires
        forall|i: int|
            0 <= i < live.len() ==> applied_entry(
                open,
                #[trigger] live[i],
                open_lookup(open2, live[i].peer_id),
            ),
        forall|k: int| 0 <= k < open2.len() ==> lookup(live, #[trigger] open2[k].peer_id) is Some,
        forall|i: int| 0 <= i < live.len() ==> (#[trigger] live[i]).state.len() > 0,
    ensures
        closing_ids(open2, live).len() == 0,
        live.filter(|p: PeerSnapshotV| plan_opens(open2, p)).len() == 0,
        live.filter(|p: PeerSnapshotV| plan_replaces(open2, p)).len() == 0,
        live.filter(|p: PeerSnapshotV| plan_restates(open2, p)).len() == 0,
{
    assert forall|i: int| 0 <= i < live.len() implies !plan_opens(open2, #[trigger] live[i])
        && !plan_replaces(open2, live[i]) && !plan_restates(open2, live[i]) by {
        let p = live[i];
        assert(applied_entry(open, p, open_lookup(open2, p.peer_id)));
        assert(p.state.len() > 0);
    }
    lemma_filter_none(live, |p: PeerSnapshotV| plan_opens(open2, p));
    lemma_filter_none(live, |p: PeerSnapshotV| plan_replaces(open2, p));
    lemma_filter_none(live, |p: PeerSnapshotV| plan_restates(open2, p));
    assert forall|k: int| 0 <= k < open2.len() implies !plan_closes(live, #[trigger] open2[k]) by {
        assert(lookup(live, open2[k].peer_id) is Some);
    }
    lemma_filter_none(open2, |e: OpenPeerV| plan_closes(live, e));
}

/// A sync does nothing for a peer whose window already shows its sprite
/// and its state: the window is neither opened, rebuilt nor sent a state.
pub proof fn law_sync_plan_steady(open: Seq<OpenPeerV>, p: PeerSnapshotV, e: OpenPeerV)
    requires
        open_lookup(open, p.peer_id) == Some(e),
        e.state == p.state,
        !sprite_swapped(p, e),
    ensures
        !plan_opens(open, p),
        !plan_replaces(open, p),
        !plan_restates(open, p),
{
}

} // verus!

