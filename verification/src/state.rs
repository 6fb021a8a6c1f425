//! The runtime state file `state.json` (active pet, animation state, scale
//! and window position) and the list of pets whose hatching finished.
use vstd::prelude::*;

use crate::text::{
    join_path, lemma_lex_irrefl, lemma_lex_total, lemma_lex_trans, lex_lt, lex_lt_exec, owned,
    path_join, sorted_strict, str_eq, trim, trim_seq,
};

verus! {

pub const DEFAULT_SCALE_MILLIS: u16 = 1000;

#[derive(Debug, Clone, PartialEq, Eq)]
pub struct RuntimeState {
    pub pet: String,
    /// The source (`builtin`, `local` or `remote`) the pet was chosen from,
    /// when one was named.
    pub pet_source: Option<String>,
    pub state: String,
    pub scale_millis: u16,
    pub window_x: Option<i32>,
    pub window_y: Option<i32>,
}

#[derive(Debug, Clone, Default)]
pub struct HatchState {
    pub completed: Vec<String>,
}

pub open spec fn names_view(v: Seq<String>) -> Seq<Seq<char>> {
    v.map_values(|s: String| s@)
}

/// The scales the pet can be shown at, in thousandths.
pub open spec fn is_scale_preset(m: u16) -> bool {
    m == 400 || m == 500 || m == 600 || m == 800 || m == 1000
}

pub fn default_state_name() -> (r: String)
    ensures
        r@ == "idle"@,
{
    owned("idle")
}

pub fn default_scale_millis() -> (r: u16)
    ensures
        r == DEFAULT_SCALE_MILLIS,
{
    DEFAULT_SCALE_MILLIS
}

pub fn is_scale_preset_exec(m: u16) -> (r: bool)
    ensures
        r == is_scale_preset(m),
{
    m == 400 || m == 500 || m == 600 || m == 800 || m == 1000
}

/// `<app dir>/state.json`.
pub fn state_path(app_dir: &str) -> (r: String)
    ensures
        r@ == path_join(app_dir@, "state.json"@),
{
    join_path(app_dir, "state.json")
}

/// `<app dir>/hatch-state.json`.
pub fn hatch_state_path(app_dir: &str) -> (r: String)
    ensures
        r@ == path_join(app_dir@, "hatch-state.json"@),
{
    join_path(app_dir, "hatch-state.json")
}

/// The state written on first launch: the first available pet (or
/// `noir-webling` when none is installed), idle, full size, no saved
/// position.
pub fn default_state(first_available_pet: Option<String>) -> (r: RuntimeState)
    ensures
        match first_available_pet {
            Some(p) => r.pet == p,
            None => r.pet@ == "noir-webling"@,
        },
        r.state@ == "idle"@,
        r.scale_millis == DEFAULT_SCALE_MILLIS,
        r.window_x is None,
        r.window_y is None,
        r.pet_source is None,
{
    let pet = match first_available_pet {
        Some(p) => p,
        None => owned("noir-webling"),
    };
    RuntimeState {
        pet,
        pet_source: None,
        state: default_state_name(),
        scale_millis: default_scale_millis(),
        window_x: None,
        window_y: None,
    }
}

/// Whether a state read from disk lacks a pet (and the default pet has to be
/// looked up before [`normalize_state`]).
pub fn needs_default_pet(s: &RuntimeState) -> (r: bool)
    ensures
        r == (s.pet@.len() == 0),
{
    s.pet.as_str().is_empty()
}

/// The state as read from disk, completed: an empty pet becomes the default
/// pet (the first available one, `first_available_pet`, or `noir-webling`),
/// an empty state becomes `idle`, and a scale that is not a preset becomes
/// full size. A pet's source is kept with its pet, and dropped when the
/// default pet takes an empty pet's place.
pub fn normalize_state(s: RuntimeState, first_available_pet: Option<String>) -> (r: RuntimeState)
    ensures
        r.pet@ == normalized_pet(
            s.pet@,
            match first_available_pet {
                Some(p) => Some(p@),
                None => None,
            },
        ),
        r.state@ == normalized_state_name(s.state@),
        r.scale_millis == normalized_scale(s.scale_millis),
        r.window_x == s.window_x,
        r.window_y == s.window_y,
        r.pet_source == (if s.pet@.len() == 0 {
            None
        } else {
            s.pet_source
        }),
{
    let mut s = s;
    if s.pet.as_str().is_empty() {
        s.pet = default_state(first_available_pet).pet;
        s.pet_source = None;
    }
    if s.state.as_str().is_empty() {
        s.state = default_state_name();
    }
    if !is_scale_preset_exec(s.scale_millis) {
        s.scale_millis = default_scale_millis();
    }
    s
}

/// The app's data directory: `EGGS_APP_DIR` when set, else `.eggs` in the
/// home directory (or in the working directory when there is no home).
pub fn app_dir(env_dir: Option<String>, home: Option<String>) -> (r: String)
    ensures
        r@ == (match env_dir {
            Some(d) => d@,
            None => path_join(
                match home {
                    Some(h) => h@,
                    None => Seq::empty(),
                },
                ".eggs"@,
            ),
        }),
{
    match env_dir {
        Some(d) => d,
        None => {
            let h = match home {
                Some(h) => h,
                None => String::new(),
            };
            join_path(h.as_str(), ".eggs")
        },
    }
}

/// `current` with its animation state set to `name`.
pub fn set_state(current: RuntimeState, name: &str) -> (r: RuntimeState)
    ensures
        r.state@ == name@,
        r == (RuntimeState { state: r.state, ..current }),
{
    let mut s = current;
    s.state = owned(name);
    s
}

/// `current` with its saved window position set to `(x, y)`.
pub fn set_window_position(current: RuntimeState, x: i32, y: i32) -> (r: RuntimeState)
    ensures
        r == (RuntimeState { window_x: Some(x), window_y: Some(y), ..current }),
{
    let mut s = current;
    s.window_x = Some(x);
    s.window_y = Some(y);
    s
}

/// `current` with its active pet set to `id`, no source named. This only
/// sets the field: while remote play is on, the pet must reach the server
/// before the switch, and `upload::switch_pet` is where that gate stands
/// (it refuses the switch when the upload failed, and calls this one
/// otherwise).
pub fn set_pet(current: RuntimeState, id: &str) -> (r: RuntimeState)
    ensures
        r.pet@ == id@,
        r == (RuntimeState { pet: r.pet, pet_source: None, ..current }),
{
    let mut s = current;
    s.pet = owned(id);
    s.pet_source = None;
    s
}

/// `current` with its active pet set to `id` from the source `source`
/// (`builtin`, `local` or `remote`). Like [`set_pet`], it only sets the
/// fields; `upload::switch_pet` gates it on the upload.
pub fn set_pet_exact(current: RuntimeState, source: &str, id: &str) -> (r: RuntimeState)
    ensures
        r.pet@ == id@,
        r.pet_source matches Some(src) && src@ == source@,
        r == (RuntimeState { pet: r.pet, pet_source: r.pet_source, ..current }),
{
    let mut s = current;
    s.pet = owned(id);
    s.pet_source = Some(owned(source));
    s
}

/// `current` with its scale set to `scale_millis` when that is a preset;
/// unchanged otherwise.
pub fn set_scale(current: RuntimeState, scale_millis: u16) -> (r: RuntimeState)
    ensures
        r.scale_millis == (if is_scale_preset(scale_millis) {
            scale_millis
        } else {
            current.scale_millis
        }),
        r == (RuntimeState { scale_millis: r.scale_millis, ..current }),
{
    let mut s = current;
    if is_scale_preset_exec(scale_millis) {
        s.scale_millis = scale_millis;
    }
    s
}

/// The trimmed, non-empty names of `names`, in order.
pub open spec fn clean_names(names: Seq<Seq<char>>) -> Seq<Seq<char>> {
    names.map_values(|n: Seq<char>| trim_seq(n)).filter(|n: Seq<char>| n.len() > 0)
}

/// The hatch state as read from disk, with every name trimmed and blank
/// names dropped.
pub fn normalize_hatch_state(h: HatchState) -> (r: HatchState)
    ensures
        names_view(r.completed@) == clean_names(names_view(h.completed@)),
{
    let ghost src = names_view(h.completed@);
    let mut out: Vec<String> = Vec::new();
    let mut i: usize = 0;
    while i < h.completed.len()
        invariant
            i <= h.completed@.len(),
            src == names_view(h.completed@),
            names_view(out@) == clean_names(src.take(i as int)),
        decreases h.completed.len() - i,
    {
        let t = trim(h.completed[i].as_str());
        proof {
            assert(src.take(i + 1).map_values(|n: Seq<char>| trim_seq(n)) == src.take(
                i as int,
            ).map_values(|n: Seq<char>| trim_seq(n)).push(trim_seq(src[i as int])));
            assert(src.take(i + 1).map_values(|n: Seq<char>| trim_seq(n)).drop_last()
                == src.take(i as int).map_values(|n: Seq<char>| trim_seq(n)));
            reveal_with_fuel(Seq::filter, 1);
        }
        if !t.as_str().is_empty() {
            let ghost before = out@;
            out.push(t);
            assert(names_view(out@) == names_view(before).push(trim_seq(src[i as int])));
        }
        i += 1;
    }
    assert(src.take(src.len() as int) == src);
    HatchState { completed: out }
}

/// Inserts `x` into a strictly sorted list of names, keeping it strictly
/// sorted; nothing changes when `x` is already there.
pub fn insert_sorted_unique(v: &mut Vec<String>, x: String)
    requires
        sorted_strict(names_view(old(v)@)),
    ensures
        sorted_strict(names_view(final(v)@)),
        forall|n: Seq<char>|
            names_view(final(v)@).contains(n) <==> (names_view(old(v)@).contains(n) || n == x@),
{
    let ghost pre = names_view(v@);
    let mut p: usize = 0;
    while p < v.len() && lex_lt_exec(v[p].as_str(), x.as_str())
        invariant
            p <= v@.len(),
            pre == names_view(v@),
            forall|k: int| 0 <= k < p ==> lex_lt(#[trigger] pre[k], x@),
        decreases v.len() - p,
    {
        p += 1;
    }
    if p < v.len() && str_eq(v[p].as_str(), x.as_str()) {
        assert(pre[p as int] == x@);
        return;
    }
    proof {
        if p < pre.len() {
            lemma_lex_total(pre[p as int], x@);
        }
    }
    v.insert(p, x);
    let ghost post = names_view(v@);
    proof {
        assert(post =~= pre.insert(p as int, x@));
        assert forall|i: int, j: int| 0 <= i < j < post.len() implies lex_lt(
            #[trigger] post[i],
            #[trigger] post[j],
        ) by {
            if j < p {
                assert(post[i] == pre[i] && post[j] == pre[j]);
            } else if j == p {
                assert(post[i] == pre[i]);
            } else if i == p {
                assert(post[j] == pre[j - 1]);
                if j - 1 > p {
                    assert(lex_lt(pre[p as int], pre[j - 1]));
                    lemma_lex_trans(x@, pre[p as int], pre[j - 1]);
                }
            } else if i < p {
                assert(post[i] == pre[i] && post[j] == pre[j - 1]);
                if i < j - 1 {
                } else {
                    lemma_lex_irrefl(pre[i]);
                }
            } else {
                assert(post[i] == pre[i - 1] && post[j] == pre[j - 1]);
            }
        }
        assert forall|n: Seq<char>| post.contains(n) <==> (pre.contains(n) || n == x@) by {
            if pre.contains(n) {
                let k = choose|k: int| 0 <= k < pre.len() && pre[k] == n;
                if k < p {
                    assert(post[k] == n);
                } else {
                    assert(post[k + 1] == n);
                }
            }
            if n == x@ {
                assert(post[p as int] == n);
            }
            if post.contains(n) {
                let k = choose|k: int| 0 <= k < post.len() && post[k] == n;
                if k < p {
                    assert(pre[k] == n);
                } else if k > p {
                    assert(pre[k - 1] == n);
                }
            }
        }
    }
}

/// The hatch state after `pet_id` finished hatching: the names of `current`
/// and the trimmed id, sorted and without repeats. `None` (nothing to write)
/// when the id is blank. `current` is the state as read (empty when it could
/// not be read).
pub fn mark_pet_hatched(pet_id: &str, current: HatchState) -> (r: Option<HatchState>)
    ensures
        r is None <==> trim_seq(pet_id@).len() == 0,
        r matches Some(h) ==> hatched_after(
            names_view(current.completed@),
            pet_id@,
            names_view(h.completed@),
        ),
{
    let id = trim(pet_id);
    if id.as_str().is_empty() {
        return None;
    }
    let ghost src = names_view(current.completed@);
    let mut set: Vec<String> = Vec::new();
    let mut i: usize = 0;
    while i < current.completed.len()
        invariant
            i <= current.completed@.len(),
            src == names_view(current.completed@),
            sorted_strict(names_view(set@)),
            forall|n: Seq<char>|
                names_view(set@).contains(n) <==> src.take(i as int).contains(n),
        decreases current.completed.len() - i,
    {
        let ghost before = names_view(set@);
        insert_sorted_unique(&mut set, current.completed[i].clone());
        proof {
            assert forall|n: Seq<char>|
                names_view(set@).contains(n) <==> src.take(i + 1).contains(n) by {
                assert(src.take(i + 1) == src.take(i as int).push(src[i as int]));
                let t0 = src.take(i as int);
                let t1 = src.take(i + 1);
                if t0.contains(n) {
                    let k = choose|k: int| 0 <= k < t0.len() && #[trigger] t0[k] == n;
                    assert(t1[k] == n);
                }
                if n == src[i as int] {
                    assert(t1[i as int] == n);
                }
                if t1.contains(n) {
                    let k = choose|k: int| 0 <= k < t1.len() && #[trigger] t1[k] == n;
                    if k < i {
                        assert(t0[k] == n);
                    } else {
                        assert(n == src[i as int]);
                    }
                }
            }
        }
        i += 1;
    }
    assert(src.take(src.len() as int) == src);
    insert_sorted_unique(&mut set, id);
    Some(HatchState { completed: set })
}


/// The scale the window is set to: a preset, or full size for anything else.
pub fn clamp_scale(m: u16) -> (r: u16)
    ensures
        r == (if is_scale_preset(m) {
            m
        } else {
            DEFAULT_SCALE_MILLIS
        }),
{
    if is_scale_preset_exec(m) {
        m
    } else {
        DEFAULT_SCALE_MILLIS
    }
}


/// `after` lists, sorted and each once, the pets of `before` and the
/// (trimmed) pet `id`.
pub open spec fn hatched_after(before: Seq<Seq<char>>, id: Seq<char>, after: Seq<Seq<char>>) -> bool {
    &&& sorted_strict(after)
    &&& forall|n: Seq<char>| after.contains(n) <==> (before.contains(n) || n == trim_seq(id))
}

/// Marking a pet hatched a second time changes nothing.
pub proof fn law_mark_pet_hatched_idempotent(
    before: Seq<Seq<char>>,
    id: Seq<char>,
    once: Seq<Seq<char>>,
    twice: Seq<Seq<char>>,
)
    requires
        hatched_after(before, id, once),
        hatched_after(once, id, twice),
    ensures
        twice == once,
{
    assert forall|n: Seq<char>| twice.contains(n) <==> once.contains(n) by {}
    crate::text::lemma_sorted_same_elements(twice, once);
}

pub open spec fn normalized_pet(pet: Seq<char>, first_available_pet: Option<Seq<char>>) -> Seq<char> {
    if pet.len() == 0 {
        match first_available_pet {
            Some(p) => p,
            None => "noir-webling"@,
        }
    } else {
        pet
    }
}

pub open spec fn normalized_state_name(state: Seq<char>) -> Seq<char> {
    if state.len() == 0 {
        "idle"@
    } else {
        state
    }
}

pub open spec fn normalized_scale(m: u16) -> u16 {
    if is_scale_preset(m) {
        m
    } else {
        DEFAULT_SCALE_MILLIS
    }
}

/// Completing a state read from disk twice gives what completing it once
/// does.
pub proof fn law_normalize_state_idempotent(
    pet: Seq<char>,
    state: Seq<char>,
    scale: u16,
    first_available_pet: Option<Seq<char>>,
)
    ensures
        normalized_pet(normalized_pet(pet, first_available_pet), first_available_pet)
            == normalized_pet(pet, first_available_pet),
        normalized_state_name(normalized_state_name(state)) == normalized_state_name(state),
        normalized_scale(normalized_scale(scale)) == normalized_scale(scale),
{
    reveal_strlit("idle");
}

} // verus!
