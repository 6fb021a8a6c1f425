//! The `eggs` command line: what the arguments ask for, and the text the
//! commands print.
use vstd::prelude::*;

use crate::pet::{infos_view, PetInfo, PetInfoV};
use crate::pet_menu::{pets_with, strings_view};
use crate::remote::RemoteConfig;
use crate::state::RuntimeState;
use crate::text::{
    decimal, decimal_exec, join_seq, parse_unsigned, parse_unsigned_spec, join_with, owned, path_join, join_path, push_str, str_eq,
    strs_view, trim, trim_end_char, trim_end_matches_char, trim_seq,
};
use crate::upload::{UploadMode, UploadOutcome};

verus! {

/// What `eggs remote ...` asks for.
pub enum RemoteCommand {
    /// `eggs remote`: enable with the saved mode and room.
    Resume,
    /// Join the random match pool (keeping the saved room).
    Random,
    /// Join the room with this (trimmed) code, saving the room cap when one
    /// is given.
    Room(String, Option<u32>),
    /// `room <code> <limit>` where the limit is not a positive number.
    RoomLimitInvalid(String),
    /// `room` without a code.
    RoomUsage,
    /// `room` with a blank code.
    RoomEmpty,
    Leave,
    On,
    Off,
    /// Use this server (trailing slashes removed).
    Server(String),
    /// `server` without a URL.
    ServerUsage,
    Status,
    /// Upload this pet, or the active one.
    Upload(Option<String>),
    Help,
    Unknown(String),
}

/// What `eggs ...` asks for.
pub enum CliCommand {
    State(String),
    StateUsage,
    Pet(String),
    /// `pet <source> <id>`: the pet `id` from the source `source`.
    PetExact(String, String),
    /// `pet <source> <id>` with a source other than `builtin`, `local` or
    /// `remote`.
    PetSourceUnknown(String),
    PetUsage,
    List,
    Install(String),
    InstallUsage,
    Status,
    /// Show a hook bubble with this text.
    Hook(String),
    HookUsage,
    /// Post this chat line as the local user.
    Message(String),
    MessageUsage,
    Remote(RemoteCommand),
    Start,
    Stop,
    Restart,
    UninstallCli,
    Help,
    Unknown(String),
}

pub open spec fn arg(argv: Seq<String>, i: int) -> Option<Seq<char>> {
    if 0 <= i < argv.len() {
        Some(argv[i]@)
    } else {
        None
    }
}

pub open spec fn remote_command_ok(argv: Seq<String>, r: RemoteCommand) -> bool {
    let action = match arg(argv, 2) {
        Some(a) => a,
        None => Seq::empty(),
    };
    let value = arg(argv, 3);
    if action.len() == 0 {
        r is Resume
    } else if action == "random"@ {
        r is Random
    } else if action == "room"@ {
        match value {
            None => r is RoomUsage,
            Some(v) => if trim_seq(v).len() == 0 {
                r is RoomEmpty
            } else {
                match arg(argv, 4) {
                    None => r matches RemoteCommand::Room(c, None) && c@ == trim_seq(v),
                    Some(l) => match parse_unsigned_spec(l, 0xffff_ffff) {
                        Some(n) if n > 0 => r matches RemoteCommand::Room(c, Some(m)) && c@
                            == trim_seq(v) && m == n,
                        _ => r matches RemoteCommand::RoomLimitInvalid(t) && t@ == l,
                    },
                }
            },
        }
    } else if action == "leave"@ {
        r is Leave
    } else if action == "on"@ {
        r is On
    } else if action == "off"@ {
        r is Off
    } else if action == "server"@ {
        match value {
            None => r is ServerUsage,
            Some(v) => r matches RemoteCommand::Server(u) && u@ == trim_end_char(v, '/'),
        }
    } else if action == "status"@ {
        r is Status
    } else if action == "upload"@ {
        match value {
            Some(v) => if v.len() > 0 {
                r matches RemoteCommand::Upload(Some(id)) && id@ == v
            } else {
                r matches RemoteCommand::Upload(None)
            },
            None => r matches RemoteCommand::Upload(None),
        }
    } else if action == "help"@ || action == "-h"@ || action == "--help"@ {
        r is Help
    } else {
        r matches RemoteCommand::Unknown(a) && a@ == action
    }
}

fn arg_at(argv: &Vec<String>, i: usize) -> (r: Option<&String>)
    ensures
        match r {
            Some(s) => arg(argv@, i as int) == Some(s@),
            None => arg(argv@, i as int) is None,
        },
{
    if i < argv.len() {
        Some(&argv[i])
    } else {
        None
    }
}

pub fn parse_remote_command(argv: &Vec<String>) -> (r: RemoteCommand)
    ensures
        remote_command_ok(argv@, r),
{
    let empty = String::new();
    let action = match arg_at(argv, 2) {
        Some(a) => a,
        None => &empty,
    };
    let a = action.as_str();
    let value = arg_at(argv, 3);
    if a.is_empty() {
        RemoteCommand::Resume
    } else if str_eq(a, "random") {
        RemoteCommand::Random
    } else if str_eq(a, "room") {
        match value {
            None => RemoteCommand::RoomUsage,
            Some(v) => {
                let code = trim(v.as_str());
                if code.as_str().is_empty() {
                    RemoteCommand::RoomEmpty
                } else {
                    match arg_at(argv, 4) {
                        None => RemoteCommand::Room(code, None),
                        Some(l) => match parse_unsigned(l.as_str(), 0xffff_ffff) {
                            Some(n) => if n > 0 {
                                RemoteCommand::Room(code, Some(n as u32))
                            } else {
                                RemoteCommand::RoomLimitInvalid(l.clone())
                            },
                            None => RemoteCommand::RoomLimitInvalid(l.clone()),
                        },
                    }
                }
            },
        }
    } else if str_eq(a, "leave") {
        RemoteCommand::Leave
    } else if str_eq(a, "on") {
        RemoteCommand::On
    } else if str_eq(a, "off") {
        RemoteCommand::Off
    } else if str_eq(a, "server") {
        match value {
            None => RemoteCommand::ServerUsage,
            Some(v) => RemoteCommand::Server(trim_end_matches_char(v.as_str(), '/')),
        }
    } else if str_eq(a, "status") {
        RemoteCommand::Status
    } else if str_eq(a, "upload") {
        match value {
            Some(v) => if v.as_str().is_empty() {
                RemoteCommand::Upload(None)
            } else {
                RemoteCommand::Upload(Some(v.clone()))
            },
            None => RemoteCommand::Upload(None),
        }
    } else if str_eq(a, "help") || str_eq(a, "-h") || str_eq(a, "--help") {
        RemoteCommand::Help
    } else {
        RemoteCommand::Unknown(action.clone())
    }
}

/// The sources a pet can be chosen from.
pub open spec fn is_pet_source(s: Seq<char>) -> bool {
    s == "builtin"@ || s == "local"@ || s == "remote"@
}

pub open spec fn command_ok(argv: Seq<String>, r: CliCommand) -> bool {
    let cmd = match arg(argv, 1) {
        Some(c) => c,
        None => Seq::empty(),
    };
    if cmd == "state"@ {
        match arg(argv, 2) {
            Some(n) => r matches CliCommand::State(s) && s@ == n,
            None => r is StateUsage,
        }
    } else if cmd == "pet"@ {
        match arg(argv, 2) {
            None => r is PetUsage,
            Some(n) => match arg(argv, 3) {
                None => r matches CliCommand::Pet(s) && s@ == n,
                Some(id) => if is_pet_source(n) {
                    r matches CliCommand::PetExact(a, b) && a@ == n && b@ == id
                } else {
                    r matches CliCommand::PetSourceUnknown(t) && t@ == n
                },
            },
        }
    } else if cmd == "list"@ {
        r is List
    } else if cmd == "install"@ {
        match arg(argv, 2) {
            Some(n) => r matches CliCommand::Install(s) && s@ == n,
            None => r is InstallUsage,
        }
    } else if cmd == "status"@ {
        r is Status
    } else if cmd == "hook"@ {
        match arg(argv, 2) {
            Some(t) => r matches CliCommand::Hook(s) && s@ == t,
            None => r is HookUsage,
        }
    } else if cmd == "message"@ {
        match arg(argv, 2) {
            Some(t) => r matches CliCommand::Message(s) && s@ == t,
            None => r is MessageUsage,
        }
    } else if cmd == "remote"@ {
        r matches CliCommand::Remote(rc) && remote_command_ok(argv, rc)
    } else if cmd == "start"@ {
        r is Start
    } else if cmd == "stop"@ {
        r is Stop
    } else if cmd == "restart"@ {
        r is Restart
    } else if cmd == "uninstall-cli"@ {
        r is UninstallCli
    } else if cmd == "help"@ || cmd == "-h"@ || cmd == "--help"@ {
        r is Help
    } else {
        r matches CliCommand::Unknown(c) && c@ == cmd
    }
}

/// What the arguments (`argv[0]` is the program) ask for.
pub fn parse_command(argv: &Vec<String>) -> (r: CliCommand)
    ensures
        command_ok(argv@, r),
{
    let empty = String::new();
    let cmd = match arg_at(argv, 1) {
        Some(c) => c,
        None => &empty,
    };
    let c = cmd.as_str();
    if str_eq(c, "state") {
        match arg_at(argv, 2) {
            Some(n) => CliCommand::State(n.clone()),
            None => CliCommand::StateUsage,
        }
    } else if str_eq(c, "pet") {
        match arg_at(argv, 2) {
            None => CliCommand::PetUsage,
            Some(n) => match arg_at(argv, 3) {
                None => CliCommand::Pet(n.clone()),
                Some(id) => {
                    let m = n.as_str();
                    if str_eq(m, "builtin") || str_eq(m, "local") || str_eq(m, "remote") {
                        CliCommand::PetExact(n.clone(), id.clone())
                    } else {
                        CliCommand::PetSourceUnknown(n.clone())
                    }
                },
            },
        }
    } else if str_eq(c, "list") {
        CliCommand::List
    } else if str_eq(c, "install") {
        match arg_at(argv, 2) {
            Some(n) => CliCommand::Install(n.clone()),
            None => CliCommand::InstallUsage,
        }
    } else if str_eq(c, "status") {
        CliCommand::Status
    } else if str_eq(c, "hook") {
        match arg_at(argv, 2) {
            Some(t) => CliCommand::Hook(t.clone()),
            None => CliCommand::HookUsage,
        }
    } else if str_eq(c, "message") {
        match arg_at(argv, 2) {
            Some(t) => CliCommand::Message(t.clone()),
            None => CliCommand::MessageUsage,
        }
    } else if str_eq(c, "remote") {
        CliCommand::Remote(parse_remote_command(argv))
    } else if str_eq(c, "start") {
        CliCommand::Start
    } else if str_eq(c, "stop") {
        CliCommand::Stop
    } else if str_eq(c, "restart") {
        CliCommand::Restart
    } else if str_eq(c, "uninstall-cli") {
        CliCommand::UninstallCli
    } else if str_eq(c, "help") || str_eq(c, "-h") || str_eq(c, "--help") {
        CliCommand::Help
    } else {
        CliCommand::Unknown(cmd.clone())
    }
}

// ---------------------------------------------------------------------------
// what the commands print
// ---------------------------------------------------------------------------

pub open spec fn pet_row(p: PetInfoV) -> Seq<char> {
    p.id + "\t"@ + p.display_name
}

pub open spec fn pet_rows(s: Seq<PetInfoV>) -> Seq<Seq<char>> {
    s.map_values(|p: PetInfoV| pet_row(p))
}

/// What `eggs list` prints: when nothing is installed, where it looked and
/// a hint; otherwise the local pets under `Local` and the remote ones under
/// `Remote` (a blank line between), one `id<TAB>name` per line.
pub open spec fn list_output_spec(pets: Seq<PetInfoV>, searched: Seq<Seq<char>>) -> Seq<Seq<char>> {
    if pets.len() == 0 {
        seq![
            "no pets installed (searched: "@ + (if searched.len() == 0 {
                "(no pets directories configured)"@
            } else {
                join_seq(searched, ", "@)
            }) + ")"@,
            "hint: use the hatch-pet skill or `eggs install <dir>`."@,
        ]
    } else {
        let local = pets_with(pets, false);
        let remote = pets_with(pets, true);
        (if local.len() > 0 {
            seq!["Local"@] + pet_rows(local)
        } else {
            Seq::empty()
        }) + (if remote.len() > 0 {
            (if local.len() > 0 {
                seq![Seq::empty()]
            } else {
                Seq::empty()
            }) + seq!["Remote"@] + pet_rows(remote)
        } else {
            Seq::empty()
        })
    }
}

fn rows_of(pets: &Vec<PetInfo>, remote: bool) -> (r: Vec<String>)
    ensures
        strs_view(r@) == pet_rows(pets_with(infos_view(pets@), remote)),
{
    let ghost all = infos_view(pets@);
    let mut out: Vec<String> = Vec::new();
    let mut i: usize = 0;
    while i < pets.len()
        invariant
            i <= pets@.len(),
            all == infos_view(pets@),
            strs_view(out@) == pet_rows(pets_with(all.take(i as int), remote)),
        decreases pets.len() - i,
    {
        let ghost t0 = all.take(i as int);
        let ghost x = all[i as int];
        proof {
            assert(all.take(i + 1) =~= t0.push(x));
            t0.lemma_filter_push(x, |p: PetInfoV| p.remote == remote);
        }
        let p = &pets[i];
        if p.remote == remote {
            let ghost before = strs_view(out@);
            let mut row = p.id.clone();
            push_str(&mut row, "\t");
            push_str(&mut row, p.display_name.as_str());
            out.push(row);
            assert(strs_view(out@) =~= before.push(pet_row(x)));
            assert(pet_rows(pets_with(t0, remote).push(x)) =~= pet_rows(pets_with(t0, remote)).push(
                pet_row(x),
            ));
        }
        i += 1;
    }
    assert(all.take(all.len() as int) =~= all);
    out
}

fn push_all(v: &mut Vec<String>, w: Vec<String>)
    ensures
        strs_view(final(v)@) == strs_view(old(v)@) + strs_view(w@),
{
    let mut w = w;
    let ghost src = w@;
    let ghost start = strs_view(v@);
    let n = w.len();
    let mut k: usize = 0;
    while w.len() > 0
        invariant
            k + w@.len() == n,
            n == src.len(),
            w@ == src.skip(k as int),
            strs_view(v@) == start + strs_view(src.take(k as int)),
        decreases w.len(),
    {
        let x = w.remove(0);
        assert(x == src[k as int]);
        assert(w@ =~= src.skip(k + 1));
        let ghost before = strs_view(v@);
        v.push(x);
        assert(strs_view(v@) =~= before.push(x@));
        assert(strs_view(src.take(k + 1)) =~= strs_view(src.take(k as int)).push(x@));
        k += 1;
    }
    assert(src.take(n as int) =~= src);
}

/// The lines `eggs list` prints, given the installed pets and (for the
/// empty case) the directories searched, as displayed.
pub fn list_output(pets: &Vec<PetInfo>, searched: &Vec<String>) -> (r: Vec<String>)
    ensures
        strs_view(r@) == list_output_spec(infos_view(pets@), strs_view(searched@)),
{
    let mut out: Vec<String> = Vec::new();
    if pets.len() == 0 {
        let mut first = owned("no pets installed (searched: ");
        if searched.len() == 0 {
            push_str(&mut first, "(no pets directories configured)");
        } else {
            let joined = join_with(searched, ", ");
            push_str(&mut first, joined.as_str());
        }
        push_str(&mut first, ")");
        out.push(first);
        out.push(owned("hint: use the hatch-pet skill or `eggs install <dir>`."));
        assert(strs_view(out@) =~= list_output_spec(infos_view(pets@), strs_view(searched@)));
        return out;
    }
    let local = rows_of(pets, false);
    let remote = rows_of(pets, true);
    let ghost lv = strs_view(local@);
    let ghost rv = strs_view(remote@);
    let has_local = local.len() > 0;
    let has_remote = remote.len() > 0;
    proof {
        let all = infos_view(pets@);
        assert(pets_with(all, false).len() == lv.len());
        assert(pets_with(all, true).len() == rv.len());
    }
    if has_local {
        out.push(owned("Local"));
        assert(strs_view(out@) =~= seq!["Local"@]);
        push_all(&mut out, local);
    }
    let ghost mid = strs_view(out@);
    assert(mid =~= (if has_local {
        seq!["Local"@] + lv
    } else {
        Seq::empty()
    }));
    if has_remote {
        if has_local {
            out.push(String::new());
            assert(strs_view(out@) =~= mid.push(Seq::empty()));
        }
        let ghost m2 = strs_view(out@);
        out.push(owned("Remote"));
        assert(strs_view(out@) =~= m2.push("Remote"@));
        push_all(&mut out, remote);
    }
    assert(strs_view(out@) =~= list_output_spec(infos_view(pets@), strs_view(searched@)));
    out
}

/// What `eggs status` prints.
pub fn status_output(s: &RuntimeState, state_file: &str) -> (r: Vec<String>)
    ensures
        strs_view(r@) == seq![
            "pet="@ + s.pet@ + " state="@ + s.state@,
            "file="@ + state_file@,
        ],
{
    let mut a = owned("pet=");
    push_str(&mut a, s.pet.as_str());
    push_str(&mut a, " state=");
    push_str(&mut a, s.state.as_str());
    let mut b = owned("file=");
    push_str(&mut b, state_file);
    let mut v: Vec<String> = Vec::new();
    v.push(a);
    v.push(b);
    assert(strs_view(v@) =~= seq![
        "pet="@ + s.pet@ + " state="@ + s.state@,
        "file="@ + state_file@,
    ]);
    v
}

pub open spec fn bool_text(b: bool) -> Seq<char> {
    if b {
        "true"@
    } else {
        "false"@
    }
}

pub open spec fn or_dash(s: Seq<char>) -> Seq<char> {
    if s.len() == 0 {
        "-"@
    } else {
        s
    }
}

/// What `eggs remote status` prints (`-` for no room or no pet).
pub fn remote_status_line(cfg: &RemoteConfig, sprite: &str) -> (r: String)
    ensures
        r@ == "remote enabled="@ + bool_text(cfg.enabled) + " server="@ + cfg.server_url@
            + " mode="@ + cfg.mode@ + " room="@ + or_dash(cfg.room@) + " sprite="@ + or_dash(
            sprite@,
        ),
{
    let mut s = owned("remote enabled=");
    push_str(&mut s, if cfg.enabled {
        "true"
    } else {
        "false"
    });
    push_str(&mut s, " server=");
    push_str(&mut s, cfg.server_url.as_str());
    push_str(&mut s, " mode=");
    push_str(&mut s, cfg.mode.as_str());
    push_str(&mut s, " room=");
    push_str(
        &mut s,
        if cfg.room.as_str().is_empty() {
            "-"
        } else {
            cfg.room.as_str()
        },
    );
    push_str(&mut s, " sprite=");
    push_str(
        &mut s,
        if sprite.is_empty() {
            "-"
        } else {
            sprite
        },
    );
    s
}

/// What `eggs remote`, `eggs remote random` and `eggs remote room <code>`
/// report once remote play is on: the room joined, or the random match
/// pool.
pub open spec fn remote_enabled_spec(cfg: RemoteConfig, sprite: Seq<char>) -> Seq<char> {
    if cfg.mode@ == "room"@ {
        "remote room enabled: "@ + cfg.room@ + " (server="@ + cfg.server_url@ + ", sprite="@ + sprite
            + ")"@
    } else {
        "remote random match pool enabled (server="@ + cfg.server_url@ + ", sprite="@ + sprite
            + ")"@
    }
}

pub fn remote_enabled_line(cfg: &RemoteConfig, sprite: &str) -> (r: String)
    ensures
        r@ == remote_enabled_spec(*cfg, sprite@),
{
    let mut s = if str_eq(cfg.mode.as_str(), "room") {
        let mut s = owned("remote room enabled: ");
        push_str(&mut s, cfg.room.as_str());
        push_str(&mut s, " (server=");
        s
    } else {
        owned("remote random match pool enabled (server=")
    };
    push_str(&mut s, cfg.server_url.as_str());
    push_str(&mut s, ", sprite=");
    push_str(&mut s, sprite);
    push_str(&mut s, ")");
    s
}

/// The line reported after an upload: a reuse is only reported when not
/// quiet; registering known files and uploading them always are.
pub open spec fn upload_report_spec(pet_id: Seq<char>, outcome: UploadOutcome, quiet: bool) -> Option<
    Seq<char>,
> {
    match outcome.mode {
        UploadMode::Reused => if quiet {
            None
        } else {
            Some(
                "pet '"@ + pet_id + "' already registered for this device (sprite_id="@
                    + outcome.sprite_id@ + ")"@,
            )
        },
        UploadMode::HashRegistered => Some(
            "pet '"@ + pet_id + "' bytes already on server; registered new row (sprite_id="@
                + outcome.sprite_id@ + ") -- no upload needed"@,
        ),
        UploadMode::BytesUploaded => Some(
            "uploaded pet '"@ + pet_id + "' (sprite_id="@ + outcome.sprite_id@ + ")"@,
        ),
    }
}

pub fn upload_report(pet_id: &str, outcome: &UploadOutcome, quiet: bool) -> (r: Option<String>)
    ensures
        match upload_report_spec(pet_id@, *outcome, quiet) {
            Some(t) => r matches Some(s) && s@ == t,
            None => r is None,
        },
{
    match outcome.mode {
        UploadMode::Reused => {
            if quiet {
                return None;
            }
            let mut s = owned("pet '");
            push_str(&mut s, pet_id);
            push_str(&mut s, "' already registered for this device (sprite_id=");
            push_str(&mut s, outcome.sprite_id.as_str());
            push_str(&mut s, ")");
            Some(s)
        },
        UploadMode::HashRegistered => {
            let mut s = owned("pet '");
            push_str(&mut s, pet_id);
            push_str(&mut s, "' bytes already on server; registered new row (sprite_id=");
            push_str(&mut s, outcome.sprite_id.as_str());
            push_str(&mut s, ") -- no upload needed");
            Some(s)
        },
        UploadMode::BytesUploaded => {
            let mut s = owned("uploaded pet '");
            push_str(&mut s, pet_id);
            push_str(&mut s, "' (sprite_id=");
            push_str(&mut s, outcome.sprite_id.as_str());
            push_str(&mut s, ")");
            Some(s)
        },
    }
}

/// Where `eggs install <dir>` copies a pet: its manifest and spritesheet
/// into `<pets dir>/<id>/`.
pub struct InstallPlan {
    pub dest: String,
    pub manifest_src: String,
    pub manifest_dst: String,
    pub sheet_src: String,
    pub sheet_dst: String,
}

pub fn install_plan(src: &str, pet_id: &str, spritesheet_path: &str, pets_dir: &str) -> (r:
    InstallPlan)
    ensures
        r.dest@ == path_join(pets_dir@, pet_id@),
        r.manifest_src@ == path_join(src@, "pet.json"@),
        r.manifest_dst@ == path_join(path_join(pets_dir@, pet_id@), "pet.json"@),
        r.sheet_src@ == path_join(src@, spritesheet_path@),
        r.sheet_dst@ == path_join(path_join(pets_dir@, pet_id@), spritesheet_path@),
{
    let dest = join_path(pets_dir, pet_id);
    let manifest_dst = join_path(dest.as_str(), "pet.json");
    let sheet_dst = join_path(dest.as_str(), spritesheet_path);
    InstallPlan {
        manifest_src: join_path(src, "pet.json"),
        sheet_src: join_path(src, spritesheet_path),
        dest,
        manifest_dst,
        sheet_dst,
    }
}

/// Whether `eggs` runs the app itself: with no subcommand, an empty one, or
/// `run`; any other subcommand is handled on the command line.
pub fn runs_gui(argv: &Vec<String>) -> (r: bool)
    ensures
        r == match arg(argv@, 1) {
            None => true,
            Some(sub) => sub == "run"@ || sub.len() == 0,
        },
{
    match arg_at(argv, 1) {
        None => true,
        Some(sub) => str_eq(sub.as_str(), "run") || sub.as_str().is_empty(),
    }
}

pub open spec fn help_text() -> Seq<Seq<char>> {
    seq![
        "eggs — animated desktop pet (Codex pet contract)"@,
        ""@,
        "usage:"@,
        "  eggs                  launch the desktop pet inline (foreground)"@,
        "  eggs run              same as `eggs` (foreground GUI)"@,
        "  eggs start            fork a detached background GUI and exit,"@,
        "                        printing its pid"@,
        "  eggs stop             SIGTERM the running GUI (SIGKILL after 3s)"@,
        "  eggs restart          stop + start"@,
        "  eggs uninstall-cli    remove the symlink / PATH entry created on first"@,
        "                        GUI launch (does not touch ~/.eggs/ or the app)"@,
        "  eggs state <name>     switch animation state"@,
        "                        (idle, running-right, running-left,"@,
        "                         waving, jumping, failed, waiting,"@,
        "                         running, review)"@,
        "  eggs pet <id>         switch active pet (folder name under"@,
        "                        ~/.eggs/pets/ or ~/.codex/pets/)"@,
        "  eggs pet <src> <id>   switch to the pet <id> from the source <src>"@,
        "                        (builtin, local or remote)"@,
        "  eggs list             list installed pets"@,
        "  eggs install <dir>    copy <dir>/{pet.json,spritesheet.webp}"@,
        "                        into ~/.eggs/pets/<id>/"@,
        "  eggs status           show current pet + state"@,
        "  eggs remote ...       multiplayer (see `eggs remote help`)"@,
        "  eggs help             show this help"@,
    ]
}

/// The help of `eggs`, line by line.
pub fn help_lines() -> (r: Vec<String>)
    ensures
        strs_view(r@) == help_text(),
{
    let mut v: Vec<String> = Vec::new();
    v.push(owned("eggs — animated desktop pet (Codex pet contract)"));
    v.push(owned(""));
    v.push(owned("usage:"));
    v.push(owned("  eggs                  launch the desktop pet inline (foreground)"));
    v.push(owned("  eggs run              same as `eggs` (foreground GUI)"));
    v.push(owned("  eggs start            fork a detached background GUI and exit,"));
    v.push(owned("                        printing its pid"));
    v.push(owned("  eggs stop             SIGTERM the running GUI (SIGKILL after 3s)"));
    v.push(owned("  eggs restart          stop + start"));
    v.push(owned("  eggs uninstall-cli    remove the symlink / PATH entry created on first"));
    v.push(owned("                        GUI launch (does not touch ~/.eggs/ or the app)"));
    v.push(owned("  eggs state <name>     switch animation state"));
    v.push(owned("                        (idle, running-right, running-left,"));
    v.push(owned("                         waving, jumping, failed, waiting,"));
    v.push(owned("                         running, review)"));
    v.push(owned("  eggs pet <id>         switch active pet (folder name under"));
    v.push(owned("                        ~/.eggs/pets/ or ~/.codex/pets/)"));
    v.push(owned("  eggs pet <src> <id>   switch to the pet <id> from the source <src>"));
    v.push(owned("                        (builtin, local or remote)"));
    v.push(owned("  eggs list             list installed pets"));
    v.push(owned("  eggs install <dir>    copy <dir>/{pet.json,spritesheet.webp}"));
    v.push(owned("                        into ~/.eggs/pets/<id>/"));
    v.push(owned("  eggs status           show current pet + state"));
    v.push(owned("  eggs remote ...       multiplayer (see `eggs remote help`)"));
    v.push(owned("  eggs help             show this help"));
    assert(strs_view(v@) =~= help_text());
    v
}

pub open spec fn remote_help_text() -> Seq<Seq<char>> {
    seq![
        "eggs remote — multiplayer with the Go server (server/main.go)"@,
        ""@,
        "usage:"@,
        "  eggs remote                 enable random match pool (alias of `random`)"@,
        "  eggs remote random          enable random match pool"@,
        "  eggs remote room <code> [<limit>]"@,
        "                              enable room mode with invite code and"@,
        "                              room cap (default 5)"@,
        "  eggs remote leave           leave current room/pair (bumps session_nonce),"@,
        "                              keep remote enabled"@,
        "  eggs remote on              enable using current mode/room"@,
        "  eggs remote off             disable without changing mode/room"@,
        "  eggs remote server <url>    set base http(s) URL of the Go server"@,
        "  eggs remote status          print remote.json snapshot"@,
        "  eggs remote upload [<id>]   force re-upload of <id> (default: current pet)"@,
        ""@,
        "notes:"@,
        "  * `random` and `room` auto-upload the current pet first; the server"@,
        "    skips body upload when (sprite_hash, json_hash) already match (~1 RTT)."@,
        "  * `random` and `room` also bring up the pet GUI if it isn't running"@,
        "    (detached child process; deduped by the single-instance plugin)."@,
        ""@,
        "config files:"@,
        "  ~/.eggs/state.json    pet + animation state (source of truth for the active pet)"@,
        "  ~/.eggs/client.json   anonymous device_id (auto-generated)"@,
        "  ~/.eggs/remote.json   server_url, enabled, mode, room, room_limit,"@,
        "                        session_nonce"@,
    ]
}

/// The help of `eggs remote`, line by line.
pub fn remote_help_lines() -> (r: Vec<String>)
    ensures
        strs_view(r@) == remote_help_text(),
{
    let mut v: Vec<String> = Vec::new();
    v.push(owned("eggs remote — multiplayer with the Go server (server/main.go)"));
    v.push(owned(""));
    v.push(owned("usage:"));
    v.push(owned("  eggs remote                 enable random match pool (alias of `random`)"));
    v.push(owned("  eggs remote random          enable random match pool"));
    v.push(owned("  eggs remote room <code> [<limit>]"));
    v.push(owned("                              enable room mode with invite code and"));
    v.push(owned("                              room cap (default 5)"));
    v.push(owned("  eggs remote leave           leave current room/pair (bumps session_nonce),"));
    v.push(owned("                              keep remote enabled"));
    v.push(owned("  eggs remote on              enable using current mode/room"));
    v.push(owned("  eggs remote off             disable without changing mode/room"));
    v.push(owned("  eggs remote server <url>    set base http(s) URL of the Go server"));
    v.push(owned("  eggs remote status          print remote.json snapshot"));
    v.push(owned("  eggs remote upload [<id>]   force re-upload of <id> (default: current pet)"));
    v.push(owned(""));
    v.push(owned("notes:"));
    v.push(owned("  * `random` and `room` auto-upload the current pet first; the server"));
    v.push(owned("    skips body upload when (sprite_hash, json_hash) already match (~1 RTT)."));
    v.push(owned("  * `random` and `room` also bring up the pet GUI if it isn't running"));
    v.push(owned("    (detached child process; deduped by the single-instance plugin)."));
    v.push(owned(""));
    v.push(owned("config files:"));
    v.push(owned("  ~/.eggs/state.json    pet + animation state (source of truth for the active pet)"));
    v.push(owned("  ~/.eggs/client.json   anonymous device_id (auto-generated)"));
    v.push(owned("  ~/.eggs/remote.json   server_url, enabled, mode, room, room_limit,"));
    v.push(owned("                        session_nonce"));
    assert(strs_view(v@) =~= remote_help_text());
    v
}

/// The process-control and listing words each name their own command: the
/// parsed command is `Start` exactly when the subcommand is `start`, `Stop`
/// exactly when it is `stop`, `Restart` exactly when it is `restart` (and
/// likewise `List`, `Status` and `UninstallCli`), whatever follows; so
/// `eggs stop` never restarts and `eggs restart` never merely stops.
pub proof fn law_process_words_distinct(argv: Seq<String>, r: CliCommand)
    requires
        command_ok(argv, r),
    ensures
        (r is Start) <==> arg(argv, 1) == Some("start"@),
        (r is Stop) <==> arg(argv, 1) == Some("stop"@),
        (r is Restart) <==> arg(argv, 1) == Some("restart"@),
        (r is List) <==> arg(argv, 1) == Some("list"@),
        (r is Status) <==> arg(argv, 1) == Some("status"@),
        (r is UninstallCli) <==> arg(argv, 1) == Some("uninstall-cli"@),
{
    reveal_strlit("state");
    reveal_strlit("pet");
    reveal_strlit("list");
    reveal_strlit("install");
    reveal_strlit("status");
    reveal_strlit("hook");
    reveal_strlit("message");
    reveal_strlit("remote");
    reveal_strlit("start");
    reveal_strlit("stop");
    reveal_strlit("restart");
    reveal_strlit("uninstall-cli");
    reveal_strlit("help");
    reveal_strlit("-h");
    reveal_strlit("--help");
    // words of different lengths differ; those of equal length differ at
    // some position
    assert("state"@.len() == 5 && "pet"@.len() == 3 && "list"@.len() == 4);
    assert("install"@.len() == 7 && "status"@.len() == 6 && "hook"@.len() == 4);
    assert("message"@.len() == 7 && "remote"@.len() == 6 && "start"@.len() == 5);
    assert("stop"@.len() == 4 && "restart"@.len() == 7 && "uninstall-cli"@.len() == 13);
    assert("help"@.len() == 4 && "-h"@.len() == 2 && "--help"@.len() == 6);
    assert("list"@[0] != "hook"@[0] && "list"@[0] != "help"@[0] && "stop"@[0] != "help"@[0]);
    assert("status"@[1] != "remote"@[1]);
    assert("start"@[3] != "state"@[3]);
    assert("stop"@[0] != "list"@[0] && "stop"@[0] != "hook"@[0]);
    assert("restart"@[0] != "install"@[0] && "restart"@[0] != "message"@[0]);
}

/// The words of `eggs remote` each name their own command: `on` switches on,
/// `off` switches off, `leave` leaves, `random` joins the random pool, and
/// no word at all resumes, whatever follows.
pub proof fn law_remote_words_distinct(argv: Seq<String>, r: RemoteCommand)
    requires
        remote_command_ok(argv, r),
    ensures
        (r is On) <==> arg(argv, 2) == Some("on"@),
        (r is Off) <==> arg(argv, 2) == Some("off"@),
        (r is Leave) <==> arg(argv, 2) == Some("leave"@),
        (r is Random) <==> arg(argv, 2) == Some("random"@),
        (r is Resume) <==> (match arg(argv, 2) {
            None => true,
            Some(a) => a.len() == 0,
        }),
{
    reveal_strlit("random");
    reveal_strlit("room");
    reveal_strlit("leave");
    reveal_strlit("on");
    reveal_strlit("off");
    reveal_strlit("server");
    reveal_strlit("status");
    reveal_strlit("upload");
    reveal_strlit("help");
    reveal_strlit("-h");
    reveal_strlit("--help");
    assert("random"@.len() == 6 && "room"@.len() == 4 && "leave"@.len() == 5);
    assert("on"@.len() == 2 && "off"@.len() == 3 && "server"@.len() == 6);
    assert("status"@.len() == 6 && "upload"@.len() == 6 && "help"@.len() == 4);
    assert("-h"@.len() == 2 && "--help"@.len() == 6);
    assert("random"@[0] != "server"@[0] && "random"@[0] != "status"@[0]);
    assert("random"@[0] != "upload"@[0] && "random"@[0] != "--help"@[0]);
    assert("on"@[0] != "-h"@[0]);
}

} // verus!



