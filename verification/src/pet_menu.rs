//! The pet's context menu: its layout (pets, states, sizes, remote play,
//! quit) built from the installed pets, the runtime state and the remote
//! configuration, and what a chosen menu item asks for.
use vstd::prelude::*;

use crate::pet::{PetInfo, PetInfoV, infos_view};
use crate::remote::{RemoteConfig, RemoteEdit};
use crate::state::RuntimeState;
use crate::text::{
    decimal, decimal_exec, has_prefix, owned, parse_unsigned, parse_unsigned_spec, push_str,
    starts_with_exec, str_eq,
};

verus! {

/// The nine animation states, in menu order.
pub open spec fn pet_states() -> Seq<Seq<char>> {
    seq![
        "idle"@,
        "running-right"@,
        "running-left"@,
        "waving"@,
        "jumping"@,
        "failed"@,
        "waiting"@,
        "running"@,
        "review"@,
    ]
}

/// The sizes offered, in thousandths.
pub open spec fn scale_presets() -> Seq<u16> {
    seq![400u16, 500u16, 600u16, 800u16, 1000u16]
}

pub open spec fn strings_view(v: Seq<String>) -> Seq<Seq<char>> {
    v.map_values(|s: String| s@)
}

/// The names of the animation states.
pub fn list_states() -> (r: Vec<String>)
    ensures
        strings_view(r@) == pet_states(),
{
    let mut v: Vec<String> = Vec::new();
    v.push(owned("idle"));
    v.push(owned("running-right"));
    v.push(owned("running-left"));
    v.push(owned("waving"));
    v.push(owned("jumping"));
    v.push(owned("failed"));
    v.push(owned("waiting"));
    v.push(owned("running"));
    v.push(owned("review"));
    assert(strings_view(v@) =~= pet_states());
    v
}

#[derive(Debug, Clone, Copy, PartialEq, Eq, Structural)]
pub enum MenuKind {
    Submenu,
    Item,
    Check,
    Separator,
}

/// One line of a menu, in order; `depth` says how deep it is nested (the
/// lines after a submenu line with a greater depth belong to it).
#[derive(Debug, Clone)]
pub struct MenuLine {
    pub depth: u8,
    pub kind: MenuKind,
    pub id: String,
    pub label: String,
    pub enabled: bool,
    pub checked: bool,
}

pub struct MenuLineV {
    pub depth: u8,
    pub kind: MenuKind,
    pub id: Seq<char>,
    pub label: Seq<char>,
    pub enabled: bool,
    pub checked: bool,
}

impl View for MenuLine {
    type V = MenuLineV;

    open spec fn view(&self) -> MenuLineV {
        MenuLineV {
            depth: self.depth,
            kind: self.kind,
            id: self.id@,
            label: self.label@,
            enabled: self.enabled,
            checked: self.checked,
        }
    }
}

pub open spec fn lines_view(v: Seq<MenuLine>) -> Seq<MenuLineV> {
    v.map_values(|l: MenuLine| l@)
}

pub open spec fn line(
    depth: u8,
    kind: MenuKind,
    id: Seq<char>,
    label: Seq<char>,
    enabled: bool,
    checked: bool,
) -> MenuLineV {
    MenuLineV { depth, kind, id, label, enabled, checked }
}

pub open spec fn separator(depth: u8) -> MenuLineV {
    line(depth, MenuKind::Separator, Seq::empty(), Seq::empty(), false, false)
}

fn mk(depth: u8, kind: MenuKind, id: String, label: String, enabled: bool, checked: bool) -> (r:
    MenuLine)
    ensures
        r@ == line(depth, kind, id@, label@, enabled, checked),
{
    MenuLine { depth, kind, id, label, enabled, checked }
}

fn push_line(v: &mut Vec<MenuLine>, l: MenuLine)
    ensures
        lines_view(final(v)@) == lines_view(old(v)@).push(l@),
{
    v.push(l);
    assert(lines_view(v@) =~= lines_view(old(v)@).push(l@));
}

fn prefixed(prefix: &str, rest: &str) -> (r: String)
    ensures
        r@ == prefix@ + rest@,
{
    let mut s = owned(prefix);
    push_str(&mut s, rest);
    s
}

// ---------------------------------------------------------------------------
// pets
// ---------------------------------------------------------------------------

pub open spec fn pet_line(p: PetInfoV, current: Seq<char>) -> MenuLineV {
    line(1, MenuKind::Check, "pet:"@ + p.id, p.display_name, true, p.id == current)
}

pub open spec fn pet_lines(pets: Seq<PetInfoV>, current: Seq<char>) -> Seq<MenuLineV> {
    pets.map_values(|p: PetInfoV| pet_line(p, current))
}

pub open spec fn pets_with(pets: Seq<PetInfoV>, remote: bool) -> Seq<PetInfoV> {
    pets.filter(|p: PetInfoV| p.remote == remote)
}

pub open spec fn local_pets(pets: Seq<PetInfoV>) -> Seq<PetInfoV> {
    pets_with(pets, false)
}

pub open spec fn remote_pets(pets: Seq<PetInfoV>) -> Seq<PetInfoV> {
    pets_with(pets, true)
}

/// The pet submenu: the local pets under a `Local` header, a separator,
/// then the remote pets under a `Remote` header (headers and separator only
/// where there is something to show); the current pet is checked.
pub open spec fn pet_menu_spec(pets: Seq<PetInfoV>, current: Seq<char>) -> Seq<MenuLineV> {
    let local = local_pets(pets);
    let remote = remote_pets(pets);
    (if local.len() > 0 {
        seq![line(1, MenuKind::Item, "pet-header:local"@, "Local"@, false, false)]
    } else {
        Seq::empty()
    }) + pet_lines(local, current) + (if local.len() > 0 && remote.len() > 0 {
        seq![separator(1)]
    } else {
        Seq::empty()
    }) + (if remote.len() > 0 {
        seq![line(1, MenuKind::Item, "pet-header:remote"@, "Remote"@, false, false)]
    } else {
        Seq::empty()
    }) + pet_lines(remote, current)
}

/// The check lines of the pets with the given `remote` flag, in order.
fn pet_checks(pets: &Vec<PetInfo>, remote: bool, current: &str) -> (r: Vec<MenuLine>)
    ensures
        lines_view(r@) == pet_lines(pets_with(infos_view(pets@), remote), current@),
{
    let ghost all = infos_view(pets@);
    let mut out: Vec<MenuLine> = Vec::new();
    let mut i: usize = 0;
    while i < pets.len()
        invariant
            i <= pets@.len(),
            all == infos_view(pets@),
            lines_view(out@) == pet_lines(pets_with(all.take(i as int), remote), current@),
        decreases pets.len() - i,
    {
        let ghost t0 = all.take(i as int);
        let ghost x = all[i as int];
        proof {
            assert(all.take(i + 1) =~= t0.push(x));
            t0.lemma_filter_push(x, |p: PetInfoV| p.remote == remote);
        }
        let p = &pets[i];
        if p.remote == remote {
            let ghost f0 = pets_with(t0, remote);
            let l = mk(
                1,
                MenuKind::Check,
                prefixed("pet:", p.id.as_str()),
                p.display_name.clone(),
                true,
                str_eq(p.id.as_str(), current),
            );
            push_line(&mut out, l);
            assert(pet_lines(f0.push(x), current@) =~= pet_lines(f0, current@).push(
                pet_line(x, current@),
            ));
        }
        i += 1;
    }
    assert(all.take(all.len() as int) =~= all);
    out
}

fn append_lines(v: &mut Vec<MenuLine>, w: Vec<MenuLine>)
    ensures
        lines_view(final(v)@) == lines_view(old(v)@) + lines_view(w@),
{
    let mut w = w;
    let ghost src = w@;
    let ghost start = lines_view(v@);
    let mut k: usize = 0;
    let n = w.len();
    while w.len() > 0
        invariant
            k + w@.len() == n,
            n == src.len(),
            w@ == src.skip(k as int),
            lines_view(v@) == start + lines_view(src.take(k as int)),
        decreases w.len(),
    {
        let l = w.remove(0);
        assert(l == src[k as int]);
        assert(w@ =~= src.skip(k + 1));
        push_line(v, l);
        assert(lines_view(src.take(k + 1)) =~= lines_view(src.take(k as int)).push(l@));
        k += 1;
    }
    assert(src.take(n as int) =~= src);
}

/// The pet submenu's lines (see [`pet_menu_spec`]).
pub fn pet_menu_lines(pets: &Vec<PetInfo>, current_pet: &str) -> (r: Vec<MenuLine>)
    ensures
        lines_view(r@) == pet_menu_spec(infos_view(pets@), current_pet@),
{
    let local = pet_checks(pets, false, current_pet);
    let remote = pet_checks(pets, true, current_pet);
    let ghost all = infos_view(pets@);
    let has_local = local.len() > 0;
    let has_remote = remote.len() > 0;
    let mut out: Vec<MenuLine> = Vec::new();
    if has_local {
        push_line(
            &mut out,
            mk(1, MenuKind::Item, owned("pet-header:local"), owned("Local"), false, false),
        );
    }
    append_lines(&mut out, local);
    if has_local && has_remote {
        push_line(&mut out, mk(1, MenuKind::Separator, String::new(), String::new(), false, false));
    }
    if has_remote {
        push_line(
            &mut out,
            mk(1, MenuKind::Item, owned("pet-header:remote"), owned("Remote"), false, false),
        );
    }
    append_lines(&mut out, remote);
    assert(lines_view(out@) =~= pet_menu_spec(all, current_pet@));
    out
}

// ---------------------------------------------------------------------------
// states and sizes
// ---------------------------------------------------------------------------

pub open spec fn state_menu_spec(current: Seq<char>) -> Seq<MenuLineV> {
    pet_states().map_values(
        |n: Seq<char>| line(1, MenuKind::Check, "state:"@ + n, n, true, n == current),
    )
}

/// The state submenu: every state, the current one checked.
pub fn state_menu_lines(current_state: &str) -> (r: Vec<MenuLine>)
    ensures
        lines_view(r@) == state_menu_spec(current_state@),
{
    let names = list_states();
    let mut out: Vec<MenuLine> = Vec::new();
    let mut i: usize = 0;
    while i < names.len()
        invariant
            i <= names@.len(),
            strings_view(names@) == pet_states(),
            lines_view(out@) == state_menu_spec(current_state@).take(i as int),
        decreases names.len() - i,
    {
        let n = &names[i];
        assert(n@ == pet_states()[i as int]);
        let l = mk(
            1,
            MenuKind::Check,
            prefixed("state:", n.as_str()),
            n.clone(),
            true,
            str_eq(n.as_str(), current_state),
        );
        push_line(&mut out, l);
        assert(state_menu_spec(current_state@).take(i + 1) =~= state_menu_spec(
            current_state@,
        ).take(i as int).push(l@));
        i += 1;
    }
    assert(state_menu_spec(current_state@).take(9) =~= state_menu_spec(current_state@));
    out
}

/// `0.4x` ... `1.0x`: the scale with one decimal.
pub open spec fn scale_label_spec(m: u16) -> Seq<char> {
    decimal((m / 1000) as nat) + "."@ + decimal(((m % 1000) / 100) as nat) + "x"@
}

/// The label of a size preset.
pub fn scale_label(m: u16) -> (r: String)
    ensures
        r@ == scale_label_spec(m),
{
    let mut s = decimal_exec((m / 1000) as u64);
    push_str(&mut s, ".");
    let t = decimal_exec(((m % 1000) / 100) as u64);
    push_str(&mut s, t.as_str());
    push_str(&mut s, "x");
    s
}

pub open spec fn scale_menu_spec(current: u16) -> Seq<MenuLineV> {
    scale_presets().map_values(
        |m: u16|
            line(
                1,
                MenuKind::Check,
                "scale:"@ + decimal(m as nat),
                scale_label_spec(m),
                true,
                m == current,
            ),
    )
}

/// The size submenu: every preset, the current one checked.
pub fn scale_menu_lines(current: u16) -> (r: Vec<MenuLine>)
    ensures
        lines_view(r@) == scale_menu_spec(current),
{
    let mut presets: Vec<u16> = Vec::new();
    presets.push(400);
    presets.push(500);
    presets.push(600);
    presets.push(800);
    presets.push(1000);
    assert(presets@ =~= scale_presets());
    let mut out: Vec<MenuLine> = Vec::new();
    let mut i: usize = 0;
    while i < presets.len()
        invariant
            i <= presets@.len(),
            presets@ == scale_presets(),
            lines_view(out@) == scale_menu_spec(current).take(i as int),
        decreases presets.len() - i,
    {
        let m = presets[i];
        let d = decimal_exec(m as u64);
        let l = mk(1, MenuKind::Check, prefixed("scale:", d.as_str()), scale_label(m), true, m == current);
        push_line(&mut out, l);
        assert(scale_menu_spec(current).take(i + 1) =~= scale_menu_spec(current).take(i as int).push(
            l@,
        ));
        i += 1;
    }
    assert(scale_menu_spec(current).take(5) =~= scale_menu_spec(current));
    out
}

// ---------------------------------------------------------------------------
// remote play
// ---------------------------------------------------------------------------

/// The remote submenu: the `Enabled` toggle, the mode submenu (random
/// match, and the saved room when there is one; the active mode is checked
/// while enabled), `Sync Sprite`, and `Leave Room` (enabled only while
/// connected with peers).
pub open spec fn remote_menu_spec(cfg: RemoteConfig, can_leave: bool) -> Seq<MenuLineV> {
    seq![
        line(1, MenuKind::Check, "remote:toggle"@, "Enabled"@, true, cfg.enabled),
        separator(1),
        line(1, MenuKind::Submenu, Seq::empty(), "Mode"@, true, false),
        line(
            2,
            MenuKind::Check,
            "remote:mode:random"@,
            "Random Match"@,
            true,
            cfg.enabled && cfg.mode@ == "random"@,
        ),
    ] + (if cfg.room@.len() > 0 {
        seq![
            line(
                2,
                MenuKind::Check,
                "remote:mode:room"@,
                "Room: "@ + cfg.room@,
                true,
                cfg.enabled && cfg.mode@ == "room"@,
            ),
        ]
    } else {
        Seq::empty()
    }) + seq![
        separator(1),
        line(1, MenuKind::Item, "remote:upload"@, "Sync Sprite"@, true, false),
        line(1, MenuKind::Item, "remote:leave"@, "Leave Room"@, cfg.enabled && can_leave, false),
    ]
}

pub fn remote_menu_lines(cfg: &RemoteConfig, can_leave: bool) -> (r: Vec<MenuLine>)
    ensures
        lines_view(r@) == remote_menu_spec(*cfg, can_leave),
{
    let mut out: Vec<MenuLine> = Vec::new();
    push_line(
        &mut out,
        mk(1, MenuKind::Check, owned("remote:toggle"), owned("Enabled"), true, cfg.enabled),
    );
    push_line(&mut out, mk(1, MenuKind::Separator, String::new(), String::new(), false, false));
    push_line(&mut out, mk(1, MenuKind::Submenu, String::new(), owned("Mode"), true, false));
    let random = cfg.enabled && str_eq(cfg.mode.as_str(), "random");
    push_line(
        &mut out,
        mk(2, MenuKind::Check, owned("remote:mode:random"), owned("Random Match"), true, random),
    );
    if !cfg.room.as_str().is_empty() {
        let room = cfg.enabled && str_eq(cfg.mode.as_str(), "room");
        push_line(
            &mut out,
            mk(
                2,
                MenuKind::Check,
                owned("remote:mode:room"),
                prefixed("Room: ", cfg.room.as_str()),
                true,
                room,
            ),
        );
    }
    push_line(&mut out, mk(1, MenuKind::Separator, String::new(), String::new(), false, false));
    push_line(
        &mut out,
        mk(1, MenuKind::Item, owned("remote:upload"), owned("Sync Sprite"), true, false),
    );
    push_line(
        &mut out,
        mk(
            1,
            MenuKind::Item,
            owned("remote:leave"),
            owned("Leave Room"),
            cfg.enabled && can_leave,
            false,
        ),
    );
    assert(lines_view(out@) =~= remote_menu_spec(*cfg, can_leave));
    out
}

// ---------------------------------------------------------------------------
// the whole menu
// ---------------------------------------------------------------------------

pub open spec fn context_menu_spec(
    pets: Seq<PetInfoV>,
    current: RuntimeState,
    cfg: RemoteConfig,
    can_leave: bool,
) -> Seq<MenuLineV> {
    seq![line(0, MenuKind::Submenu, Seq::empty(), "Pet"@, true, false)] + pet_menu_spec(
        pets,
        current.pet@,
    ) + seq![line(0, MenuKind::Submenu, Seq::empty(), "State"@, true, false)] + state_menu_spec(
        current.state@,
    ) + seq![line(0, MenuKind::Submenu, Seq::empty(), "Size"@, true, false)] + scale_menu_spec(
        current.scale_millis,
    ) + seq![line(0, MenuKind::Submenu, Seq::empty(), "Remote"@, true, false)] + remote_menu_spec(
        cfg,
        can_leave,
    ) + seq![line(0, MenuKind::Item, "quit"@, "Quit"@, true, false)]
}

/// The context menu: the pet, state, size and remote submenus, then
/// `Quit`.
pub fn context_menu(
    pets: &Vec<PetInfo>,
    current: &RuntimeState,
    cfg: &RemoteConfig,
    can_leave: bool,
) -> (r: Vec<MenuLine>)
    ensures
        lines_view(r@) == context_menu_spec(infos_view(pets@), *current, *cfg, can_leave),
{
    let mut out: Vec<MenuLine> = Vec::new();
    push_line(&mut out, mk(0, MenuKind::Submenu, String::new(), owned("Pet"), true, false));
    append_lines(&mut out, pet_menu_lines(pets, current.pet.as_str()));
    push_line(&mut out, mk(0, MenuKind::Submenu, String::new(), owned("State"), true, false));
    append_lines(&mut out, state_menu_lines(current.state.as_str()));
    push_line(&mut out, mk(0, MenuKind::Submenu, String::new(), owned("Size"), true, false));
    append_lines(&mut out, scale_menu_lines(current.scale_millis));
    push_line(&mut out, mk(0, MenuKind::Submenu, String::new(), owned("Remote"), true, false));
    append_lines(&mut out, remote_menu_lines(cfg, can_leave));
    push_line(&mut out, mk(0, MenuKind::Item, owned("quit"), owned("Quit"), true, false));
    assert(lines_view(out@) =~= context_menu_spec(infos_view(pets@), *current, *cfg, can_leave));
    out
}

// ---------------------------------------------------------------------------
// menu events
// ---------------------------------------------------------------------------

/// What a chosen menu item asks for.
pub enum MenuAction {
    Quit,
    /// Upload the pet, then make it the active one.
    SwitchPet(String),
    SetState(String),
    SetScale(u16),
    EditRemote(RemoteEdit),
    /// Upload the active pet again.
    SyncSprite,
    LeaveRoom,
    Nothing,
}

pub open spec fn is_preset(m: nat) -> bool {
    m == 400 || m == 500 || m == 600 || m == 800 || m == 1000
}

/// The action of the menu item `id`: `quit`; `pet:<id>`; `state:<name>`;
/// `scale:<millis>` for a preset size (anything else does nothing); and the
/// remote items.
pub open spec fn menu_action_ok(id: Seq<char>, r: MenuAction) -> bool {
    if id == "quit"@ {
        r is Quit
    } else if has_prefix(id, "pet:"@) {
        r matches MenuAction::SwitchPet(p) && p@ == id.skip(4)
    } else if has_prefix(id, "state:"@) {
        r matches MenuAction::SetState(s) && s@ == id.skip(6)
    } else if has_prefix(id, "scale:"@) {
        match parse_unsigned_spec(id.skip(6), 65535) {
            Some(v) => if is_preset(v) {
                r matches MenuAction::SetScale(m) && m == v
            } else {
                r is Nothing
            },
            None => r is Nothing,
        }
    } else if id == "remote:toggle"@ {
        r matches MenuAction::EditRemote(RemoteEdit::Toggle)
    } else if id == "remote:mode:random"@ {
        r matches MenuAction::EditRemote(RemoteEdit::UseRandom)
    } else if id == "remote:mode:room"@ {
        r matches MenuAction::EditRemote(RemoteEdit::UseRoom)
    } else if id == "remote:upload"@ {
        r is SyncSprite
    } else if id == "remote:leave"@ {
        r is LeaveRoom
    } else {
        r is Nothing
    }
}

fn rest_after(id: &str, n: usize) -> (r: String)
    requires
        n <= id@.len(),
    ensures
        r@ == id@.skip(n as int),
{
    let cs = crate::text::chars_of(id);
    let mut v: Vec<char> = Vec::new();
    let mut i: usize = n;
    while i < cs.len()
        invariant
            n <= i <= cs@.len(),
            cs@ == id@,
            v@ == cs@.subrange(n as int, i as int),
        decreases cs.len() - i,
    {
        v.push(cs[i]);
        assert(cs@.subrange(n as int, i + 1) =~= cs@.subrange(n as int, i as int).push(cs@[i as int]));
        i += 1;
    }
    assert(cs@.subrange(n as int, cs@.len() as int) =~= id@.skip(n as int));
    crate::text::string_of(&v)
}

pub fn menu_action(id: &str) -> (r: MenuAction)
    ensures
        menu_action_ok(id@, r),
{
    proof {
        reveal_strlit("pet:");
        reveal_strlit("state:");
        reveal_strlit("scale:");
    }
    if str_eq(id, "quit") {
        return MenuAction::Quit;
    }
    if starts_with_exec(id, "pet:") {
        return MenuAction::SwitchPet(rest_after(id, 4));
    }
    if starts_with_exec(id, "state:") {
        return MenuAction::SetState(rest_after(id, 6));
    }
    if starts_with_exec(id, "scale:") {
        let rest = rest_after(id, 6);
        return match parse_unsigned(rest.as_str(), 65535) {
            Some(v) => {
                if v == 400 || v == 500 || v == 600 || v == 800 || v == 1000 {
                    MenuAction::SetScale(v as u16)
                } else {
                    MenuAction::Nothing
                }
            },
            None => MenuAction::Nothing,
        };
    }
    if str_eq(id, "remote:toggle") {
        MenuAction::EditRemote(RemoteEdit::Toggle)
    } else if str_eq(id, "remote:mode:random") {
        MenuAction::EditRemote(RemoteEdit::UseRandom)
    } else if str_eq(id, "remote:mode:room") {
        MenuAction::EditRemote(RemoteEdit::UseRoom)
    } else if str_eq(id, "remote:upload") {
        MenuAction::SyncSprite
    } else if str_eq(id, "remote:leave") {
        MenuAction::LeaveRoom
    } else {
        MenuAction::Nothing
    }
}

// ---------------------------------------------------------------------------
// laws
// ---------------------------------------------------------------------------

/// Choosing a state item of the menu sets that state.
pub proof fn law_state_item_sets_state(name: Seq<char>, r: MenuAction)
    requires
        menu_action_ok("state:"@ + name, r),
    ensures
        r matches MenuAction::SetState(s) && s@ == name,
{
    reveal_strlit("state:");
    reveal_strlit("quit");
    reveal_strlit("pet:");
    let id = "state:"@ + name;
    assert(id[0] == 's');
    assert(id.subrange(0, 6) =~= "state:"@);
    assert(id.skip(6) =~= name);
    if has_prefix(id, "pet:"@) {
        assert(id.subrange(0, 4)[0] == 'p');
    }
    if id == "quit"@ {
        assert(id[0] == 'q');
    }
}

/// Choosing a pet item of the menu switches to that pet.
pub proof fn law_pet_item_switches_pet(pet_id: Seq<char>, r: MenuAction)
    requires
        menu_action_ok("pet:"@ + pet_id, r),
    ensures
        r matches MenuAction::SwitchPet(p) && p@ == pet_id,
{
    reveal_strlit("pet:");
    reveal_strlit("quit");
    let id = "pet:"@ + pet_id;
    assert(id[0] == 'p');
    assert(id.subrange(0, 4) =~= "pet:"@);
    assert(id.skip(4) =~= pet_id);
    if id == "quit"@ {
        assert(id[0] == 'q');
    }
}

/// Choosing a size item of the menu sets that size.
pub proof fn law_size_item_sets_scale(m: u16, r: MenuAction)
    requires
        is_preset(m as nat),
        menu_action_ok("scale:"@ + decimal(m as nat), r),
    ensures
        r matches MenuAction::SetScale(x) && x == m,
{
    reveal_strlit("scale:");
    reveal_strlit("state:");
    reveal_strlit("pet:");
    reveal_strlit("quit");
    let id = "scale:"@ + decimal(m as nat);
    assert(id[0] == 's');
    assert(id[1] == 'c');
    assert(id.subrange(0, 6) =~= "scale:"@);
    assert(id.skip(6) =~= decimal(m as nat));
    if has_prefix(id, "pet:"@) {
        assert(id.subrange(0, 4)[0] == 'p');
    }
    if has_prefix(id, "state:"@) {
        assert(id.subrange(0, 6)[1] == 't');
    }
    if id == "quit"@ {
        assert(id[0] == 'q');
    }
    crate::text::law_decimal_parses_back(m as nat, 65535);
}

} // verus!

