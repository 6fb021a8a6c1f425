use eggs::cli::{
    help_lines, install_plan, list_output, parse_command, parse_remote_command,
    remote_enabled_line, remote_help_lines, remote_status_line, runs_gui, status_output,
    upload_report, CliCommand, RemoteCommand,
};
use eggs::cli_install::{
    in_system_bin, is_installed_location, looks_like_ours, path_removed_line, path_with_dir,
    path_without_dir, read_user_path, symlink_candidates, uninstall, uninstall_candidates,
    LinkProbe, Os,
};
use eggs::client::{client_path, complete_client_config, needs_device_id, with_device_id, ClientConfig};
use eggs::ipc::{endpoint_path, event_text};
use eggs::pet::PetInfo;
use eggs::pet_menu::{
    context_menu, list_states, menu_action, pet_menu_lines, remote_menu_lines, scale_label,
    scale_menu_lines, state_menu_lines, MenuAction, MenuKind,
};
use eggs::pid::{parse_pid, pid_path, tasklist_lists_pid};
use eggs::remote::{RemoteConfig, RemoteEdit};
use eggs::state::RuntimeState;
use eggs::upload::{UploadMode, UploadOutcome};

fn s(x: &str) -> String {
    x.to_string()
}

fn argv(xs: &[&str]) -> Vec<String> {
    xs.iter().map(|x| s(x)).collect()
}

fn info(id: &str, name: &str, remote: bool) -> PetInfo {
    PetInfo {
        id: s(id),
        display_name: s(name),
        manifest_path: format!("/p/{id}/pet.json"),
        remote,
        builtin: false,
    }
}

fn cfg(enabled: bool, mode: &str, room: &str) -> RemoteConfig {
    RemoteConfig {
        server_url: s("https://eggs.example"),
        enabled,
        mode: s(mode),
        room: s(room),
        room_limit: 5,
        session_nonce: 0,
    }
}

#[test]
fn remote_subcommands_parse() {
    assert!(matches!(parse_remote_command(&argv(&["eggs", "remote"])), RemoteCommand::Resume));
    assert!(matches!(parse_remote_command(&argv(&["eggs", "remote", ""])), RemoteCommand::Resume));
    assert!(matches!(
        parse_remote_command(&argv(&["eggs", "remote", "random"])),
        RemoteCommand::Random
    ));
    match parse_remote_command(&argv(&["eggs", "remote", "room", "  ab12 "])) {
        RemoteCommand::Room(c, limit) => {
            assert_eq!(c, "ab12");
            assert_eq!(limit, None);
        },
        _ => panic!("expected a room"),
    }
    assert!(matches!(
        parse_remote_command(&argv(&["eggs", "remote", "room"])),
        RemoteCommand::RoomUsage
    ));
    assert!(matches!(
        parse_remote_command(&argv(&["eggs", "remote", "room", "   "])),
        RemoteCommand::RoomEmpty
    ));
    match parse_remote_command(&argv(&["eggs", "remote", "server", "http://h:8080///"])) {
        RemoteCommand::Server(u) => assert_eq!(u, "http://h:8080"),
        _ => panic!("expected a server"),
    }
    assert!(matches!(
        parse_remote_command(&argv(&["eggs", "remote", "server"])),
        RemoteCommand::ServerUsage
    ));
    match parse_remote_command(&argv(&["eggs", "remote", "upload", "dino"])) {
        RemoteCommand::Upload(Some(id)) => assert_eq!(id, "dino"),
        _ => panic!("expected an upload"),
    }
    assert!(matches!(
        parse_remote_command(&argv(&["eggs", "remote", "upload"])),
        RemoteCommand::Upload(None)
    ));
    assert!(matches!(parse_remote_command(&argv(&["eggs", "remote", "-h"])), RemoteCommand::Help));
    assert!(matches!(parse_remote_command(&argv(&["eggs", "remote", "leave"])), RemoteCommand::Leave));
    assert!(matches!(parse_remote_command(&argv(&["eggs", "remote", "on"])), RemoteCommand::On));
    assert!(matches!(parse_remote_command(&argv(&["eggs", "remote", "off"])), RemoteCommand::Off));
    assert!(matches!(
        parse_remote_command(&argv(&["eggs", "remote", "status"])),
        RemoteCommand::Status
    ));
    match parse_remote_command(&argv(&["eggs", "remote", "dance"])) {
        RemoteCommand::Unknown(a) => assert_eq!(a, "dance"),
        _ => panic!("expected unknown"),
    }
}

#[test]
fn commands_parse() {
    match parse_command(&argv(&["eggs", "state", "waving"])) {
        CliCommand::State(n) => assert_eq!(n, "waving"),
        _ => panic!("expected state"),
    }
    assert!(matches!(parse_command(&argv(&["eggs", "state"])), CliCommand::StateUsage));
    assert!(matches!(parse_command(&argv(&["eggs", "pet"])), CliCommand::PetUsage));
    assert!(matches!(parse_command(&argv(&["eggs", "list"])), CliCommand::List));
    assert!(matches!(parse_command(&argv(&["eggs", "install"])), CliCommand::InstallUsage));
    assert!(matches!(parse_command(&argv(&["eggs", "uninstall-cli"])), CliCommand::UninstallCli));
    assert!(matches!(parse_command(&argv(&["eggs", "--help"])), CliCommand::Help));
    assert!(matches!(
        parse_command(&argv(&["eggs", "remote", "random"])),
        CliCommand::Remote(RemoteCommand::Random)
    ));
    match parse_command(&argv(&["eggs", "fly"])) {
        CliCommand::Unknown(c) => assert_eq!(c, "fly"),
        _ => panic!("expected unknown"),
    }
    match parse_command(&argv(&["eggs", "hook", "build done"])) {
        CliCommand::Hook(t) => assert_eq!(t, "build done"),
        _ => panic!("expected hook"),
    }
    assert!(matches!(parse_command(&argv(&["eggs", "hook"])), CliCommand::HookUsage));
    match parse_command(&argv(&["eggs", "message", "hi"])) {
        CliCommand::Message(t) => assert_eq!(t, "hi"),
        _ => panic!("expected message"),
    }
    assert!(matches!(parse_command(&argv(&["eggs", "message"])), CliCommand::MessageUsage));
    assert!(runs_gui(&argv(&["eggs"])));
    assert!(runs_gui(&argv(&["eggs", "run"])));
    assert!(runs_gui(&argv(&["eggs", ""])));
    assert!(!runs_gui(&argv(&["eggs", "list"])));
}

#[test]
fn list_prints_local_then_remote() {
    let pets = vec![info("dino", "Dino", false), info("cat", "Cat", true), info("egg", "Egg", false)];
    assert_eq!(
        list_output(&pets, &Vec::new()),
        vec![s("Local"), s("dino\tDino"), s("egg\tEgg"), s(""), s("Remote"), s("cat\tCat")]
    );
    assert_eq!(
        list_output(&vec![info("cat", "Cat", true)], &Vec::new()),
        vec![s("Remote"), s("cat\tCat")]
    );
    assert_eq!(
        list_output(&Vec::new(), &vec![s("/a"), s("/b")]),
        vec![
            s("no pets installed (searched: /a, /b)"),
            s("hint: use the hatch-pet skill or `eggs install <dir>`."),
        ]
    );
    assert_eq!(
        list_output(&Vec::new(), &Vec::new())[0],
        "no pets installed (searched: (no pets directories configured))"
    );
}

#[test]
fn status_lines() {
    let st = RuntimeState {
        pet: s("dino"),
        pet_source: None,
        state: s("idle"),
        scale_millis: 1000,
        window_x: None,
        window_y: None,
    };
    assert_eq!(
        status_output(&st, "/h/.eggs/state.json"),
        vec![s("pet=dino state=idle"), s("file=/h/.eggs/state.json")]
    );
    assert_eq!(
        remote_status_line(&cfg(true, "room", ""), ""),
        "remote enabled=true server=https://eggs.example mode=room room=- sprite=-"
    );
    assert_eq!(
        remote_status_line(&cfg(false, "random", "ab12"), "sp9"),
        "remote enabled=false server=https://eggs.example mode=random room=ab12 sprite=sp9"
    );
}

#[test]
fn remote_enabled_lines() {
    assert_eq!(
        remote_enabled_line(&cfg(true, "room", "ab12"), "dino"),
        "remote room enabled: ab12 (server=https://eggs.example, sprite=dino)"
    );
    assert_eq!(
        remote_enabled_line(&cfg(true, "random", "ab12"), "dino"),
        "remote random match pool enabled (server=https://eggs.example, sprite=dino)"
    );
}

#[test]
fn upload_reports() {
    let reused = UploadOutcome { sprite_id: s("sp1"), mode: UploadMode::Reused };
    assert_eq!(upload_report("dino", &reused, true), None);
    assert_eq!(
        upload_report("dino", &reused, false),
        Some(s("pet 'dino' already registered for this device (sprite_id=sp1)"))
    );
    let reg = UploadOutcome { sprite_id: s("sp2"), mode: UploadMode::HashRegistered };
    assert_eq!(
        upload_report("dino", &reg, true),
        Some(s("pet 'dino' bytes already on server; registered new row (sprite_id=sp2) -- no upload needed"))
    );
    let up = UploadOutcome { sprite_id: s("sp3"), mode: UploadMode::BytesUploaded };
    assert_eq!(upload_report("dino", &up, true), Some(s("uploaded pet 'dino' (sprite_id=sp3)")));
}

#[test]
fn install_plan_paths() {
    let p = install_plan("/src/dino", "dino", "spritesheet.webp", "/h/.eggs/pets");
    assert_eq!(p.dest, "/h/.eggs/pets/dino");
    assert_eq!(p.manifest_src, "/src/dino/pet.json");
    assert_eq!(p.manifest_dst, "/h/.eggs/pets/dino/pet.json");
    assert_eq!(p.sheet_src, "/src/dino/spritesheet.webp");
    assert_eq!(p.sheet_dst, "/h/.eggs/pets/dino/spritesheet.webp");
}

#[test]
fn help_texts() {
    let h = help_lines();
    assert_eq!(h.len(), 25);
    assert_eq!(h[17], "  eggs pet <src> <id>   switch to the pet <id> from the source <src>");
    assert_eq!(h[2], "usage:");
    let r = remote_help_lines();
    assert_eq!(r.len(), 27);
    assert_eq!(r[5], "  eggs remote room <code> [<limit>]");
    assert_eq!(r[4], "  eggs remote random          enable random match pool");
}

#[test]
fn menu_lines() {
    assert_eq!(list_states().len(), 9);
    assert_eq!(list_states()[0], "idle");
    let pets = vec![info("dino", "Dino", false), info("cat", "Cat", true)];
    let lines = pet_menu_lines(&pets, "cat");
    let ids: Vec<&str> = lines.iter().map(|l| l.id.as_str()).collect();
    assert_eq!(ids, vec!["pet-header:local", "pet:dino", "", "pet-header:remote", "pet:cat"]);
    assert_eq!(lines[2].kind, MenuKind::Separator);
    assert!(!lines[0].enabled);
    assert!(!lines[1].checked);
    assert!(lines[4].checked);
    assert_eq!(lines[4].label, "Cat");

    let states = state_menu_lines("waving");
    assert_eq!(states.len(), 9);
    assert_eq!(states[3].id, "state:waving");
    assert!(states[3].checked);
    assert_eq!(states.iter().filter(|l| l.checked).count(), 1);

    assert_eq!(scale_label(400), "0.4x");
    assert_eq!(scale_label(1000), "1.0x");
    let sizes = scale_menu_lines(800);
    let ids: Vec<&str> = sizes.iter().map(|l| l.id.as_str()).collect();
    assert_eq!(ids, vec!["scale:400", "scale:500", "scale:600", "scale:800", "scale:1000"]);
    assert!(sizes[3].checked);
    assert_eq!(sizes[3].label, "0.8x");

    let remote = remote_menu_lines(&cfg(true, "room", "ab12"), false);
    let ids: Vec<&str> = remote.iter().map(|l| l.id.as_str()).collect();
    assert_eq!(
        ids,
        vec!["remote:toggle", "", "", "remote:mode:random", "remote:mode:room", "", "remote:upload", "remote:leave"]
    );
    assert!(remote[0].checked);
    assert!(!remote[3].checked);
    assert!(remote[4].checked);
    assert_eq!(remote[4].label, "Room: ab12");
    assert_eq!(remote[4].depth, 2);
    assert!(!remote[7].enabled);
    let remote = remote_menu_lines(&cfg(true, "random", ""), true);
    assert_eq!(remote.len(), 7);
    assert!(remote[3].checked);
    assert!(remote[6].enabled);

    let st = RuntimeState {
        pet: s("dino"),
        pet_source: None,
        state: s("idle"),
        scale_millis: 1000,
        window_x: None,
        window_y: None,
    };
    let all = context_menu(&pets, &st, &cfg(false, "random", ""), false);
    assert_eq!(all.len(), 1 + 5 + 1 + 9 + 1 + 5 + 1 + 7 + 1);
    assert_eq!(all[0].label, "Pet");
    assert_eq!(all.last().unwrap().id, "quit");
}

#[test]
fn menu_actions() {
    assert!(matches!(menu_action("quit"), MenuAction::Quit));
    match menu_action("pet:dino") {
        MenuAction::SwitchPet(p) => assert_eq!(p, "dino"),
        _ => panic!("expected a pet switch"),
    }
    match menu_action("state:jumping") {
        MenuAction::SetState(p) => assert_eq!(p, "jumping"),
        _ => panic!("expected a state"),
    }
    assert!(matches!(menu_action("scale:600"), MenuAction::SetScale(600)));
    assert!(matches!(menu_action("scale:700"), MenuAction::Nothing));
    assert!(matches!(menu_action("scale:abc"), MenuAction::Nothing));
    assert!(matches!(menu_action("remote:toggle"), MenuAction::EditRemote(RemoteEdit::Toggle)));
    assert!(matches!(
        menu_action("remote:mode:random"),
        MenuAction::EditRemote(RemoteEdit::UseRandom)
    ));
    assert!(matches!(menu_action("remote:mode:room"), MenuAction::EditRemote(RemoteEdit::UseRoom)));
    assert!(matches!(menu_action("remote:upload"), MenuAction::SyncSprite));
    assert!(matches!(menu_action("remote:leave"), MenuAction::LeaveRoom));
    assert!(matches!(menu_action("pet-header:local"), MenuAction::Nothing));
}

#[test]
fn install_locations() {
    assert!(is_installed_location(Os::MacOs, "/Applications/Eggs.app/Contents/MacOS/eggs"));
    assert!(!is_installed_location(Os::MacOs, "/Users/u/src/target/release/eggs"));
    assert!(!is_installed_location(Os::Windows, "C:\\src\\TARGET\\release\\eggs.exe"));
    assert!(is_installed_location(Os::Windows, "C:\\Program Files\\Eggs\\eggs.exe"));
    assert!(!is_installed_location(Os::Linux, "/home/u/src/target/debug/eggs"));
    assert!(is_installed_location(Os::Linux, "/opt/eggs/eggs"));
    assert!(!is_installed_location(Os::Other, "/opt/eggs/eggs"));
    assert_eq!(
        symlink_candidates(Os::MacOs, "/Users/u"),
        vec![s("/usr/local/bin/eggs"), s("/Users/u/.local/bin/eggs")]
    );
    assert_eq!(
        symlink_candidates(Os::Linux, "/home/u"),
        vec![s("/home/u/.local/bin/eggs"), s("/usr/local/bin/eggs")]
    );
    assert!(symlink_candidates(Os::Windows, "C:\\u").is_empty());
    assert_eq!(uninstall_candidates(Os::Linux, None), vec![s("/usr/local/bin/eggs")]);
    assert!(in_system_bin("/usr/bin/eggs"));
    assert!(!in_system_bin("/opt/eggs"));
}

#[test]
fn uninstall_removes_only_our_links() {
    assert!(looks_like_ours(Os::Linux, "/opt/eggs", "/opt/eggs", None, true));
    assert!(looks_like_ours(Os::Linux, "/x/Eggs.AppImage", "/opt/eggs", None, true));
    assert!(looks_like_ours(Os::Linux, "/gone", "/opt/eggs", None, false));
    assert!(!looks_like_ours(Os::Linux, "/usr/bin/other", "/opt/eggs", None, true));
    assert!(looks_like_ours(Os::Linux, "/a/app", "/opt/eggs", Some("/a/app"), true));
    assert!(looks_like_ours(Os::MacOs, "/Applications/Eggs.app/Contents/MacOS/eggs", "/x", None, true));
    assert!(!looks_like_ours(Os::Windows, "/opt/eggs", "/opt/eggs", None, false));
    let probes = vec![
        LinkProbe { path: s("/home/u/.local/bin/eggs"), link_target: Some(s("/opt/eggs")), target_exists: true },
        LinkProbe { path: s("/usr/local/bin/eggs"), link_target: Some(s("/usr/bin/vim")), target_exists: true },
        LinkProbe { path: s("/nowhere"), link_target: None, target_exists: false },
    ];
    let removed = uninstall(Os::Linux, "/opt/eggs", None, &probes);
    assert_eq!(removed.len(), 1);
    assert_eq!(removed[0].path, "/home/u/.local/bin/eggs");
    assert_eq!(removed[0].message, "removed symlink /home/u/.local/bin/eggs (was -> /opt/eggs)");
}

#[test]
fn windows_user_path_edits() {
    assert_eq!(path_with_dir("", "C:\\Eggs"), Some(s("C:\\Eggs")));
    assert_eq!(path_with_dir("C:\\a;", "C:\\Eggs"), Some(s("C:\\a;C:\\Eggs")));
    assert_eq!(path_with_dir("C:\\a;c:\\eggs", "C:\\Eggs"), None);
    assert_eq!(path_without_dir("C:\\a;;C:\\EGGS;C:\\b", "C:\\Eggs"), Some(s("C:\\a;C:\\b")));
    assert_eq!(path_without_dir("C:\\a;C:\\b", "C:\\Eggs"), None);
    assert_eq!(
        path_removed_line("C:\\Eggs"),
        "removed C:\\Eggs from user PATH (open a new shell to refresh)"
    );
    let out = "\r\nHKEY_CURRENT_USER\\Environment\r\n    Path    REG_EXPAND_SZ    C:\\a;C:\\b  \r\n\r\n";
    assert_eq!(read_user_path(out), Some(s("C:\\a;C:\\b")));
    assert_eq!(read_user_path("ERROR: not found"), None);
}

#[test]
fn law_path_add_once_example() {
    let once = path_with_dir("C:\\a", "C:\\Eggs").unwrap();
    assert_eq!(path_with_dir(&once, "C:\\Eggs"), None);
    let removed = path_without_dir(&once, "c:\\eggs").unwrap();
    assert_eq!(removed, "C:\\a");
    assert_eq!(path_without_dir(&removed, "C:\\Eggs"), None);
}

#[test]
fn ipc_pid_and_client() {
    assert_eq!(endpoint_path(Os::Linux, "/h/.eggs"), "/h/.eggs/eggs-ipc.sock");
    assert_eq!(endpoint_path(Os::Windows, "C:\\u\\.eggs"), "\\\\.\\pipe\\eggs-ipc");
    assert_eq!(event_text("  {\"id\":1}\n"), Some(s("{\"id\":1}")));
    assert_eq!(event_text(" \n"), None);
    assert_eq!(pid_path("/h/.eggs"), "/h/.eggs/eggs.pid");
    assert_eq!(parse_pid(" 4242\n"), Some(4242));
    assert_eq!(parse_pid("abc"), None);
    assert_eq!(parse_pid("99999999999"), None);
    assert!(tasklist_lists_pid("eggs.exe   4242 Console", 4242));
    assert!(!tasklist_lists_pid("INFO: No tasks", 4242));
    assert_eq!(client_path("/h/.eggs"), "/h/.eggs/client.json");
    assert!(needs_device_id(&ClientConfig { device_id: s("  ") }));
    assert!(!needs_device_id(&ClientConfig { device_id: s("abc") }));
    let (c, changed) = with_device_id(ClientConfig { device_id: String::new() }, s("fresh"));
    assert!(changed);
    assert_eq!(c.device_id, "fresh");
    let (c, changed) = with_device_id(ClientConfig { device_id: s("kept") }, s("fresh"));
    assert!(!changed);
    assert_eq!(c.device_id, "kept");
    let (c, changed) = complete_client_config(ClientConfig::default());
    assert!(changed);
    assert_eq!(c.device_id.len(), 32);
    assert_eq!(c.device_id.as_bytes()[12], b'4');
    assert!(c.device_id.chars().all(|ch| ch.is_ascii_hexdigit() && !ch.is_ascii_uppercase()));
}

#[test]
fn room_takes_an_optional_positive_cap() {
    match parse_remote_command(&argv(&["eggs", "remote", "room", "ab12", "4"])) {
        RemoteCommand::Room(c, limit) => {
            assert_eq!(c, "ab12");
            assert_eq!(limit, Some(4));
        },
        _ => panic!("expected a room with a cap"),
    }
    match parse_remote_command(&argv(&["eggs", "remote", "room", "ab12", "0"])) {
        RemoteCommand::RoomLimitInvalid(t) => assert_eq!(t, "0"),
        _ => panic!("expected an invalid cap"),
    }
    match parse_remote_command(&argv(&["eggs", "remote", "room", "ab12", "many"])) {
        RemoteCommand::RoomLimitInvalid(t) => assert_eq!(t, "many"),
        _ => panic!("expected an invalid cap"),
    }
    assert!(matches!(
        parse_remote_command(&argv(&["eggs", "remote", "leave"])),
        RemoteCommand::Leave
    ));
}

#[test]
fn pet_takes_an_optional_source() {
    match parse_command(&argv(&["eggs", "pet", "dino"])) {
        CliCommand::Pet(p) => assert_eq!(p, "dino"),
        _ => panic!("expected a pet"),
    }
    match parse_command(&argv(&["eggs", "pet", "remote", "dino"])) {
        CliCommand::PetExact(src, id) => {
            assert_eq!(src, "remote");
            assert_eq!(id, "dino");
        },
        _ => panic!("expected an exact pet"),
    }
    match parse_command(&argv(&["eggs", "pet", "builtin", "dino"])) {
        CliCommand::PetExact(src, _) => assert_eq!(src, "builtin"),
        _ => panic!("expected an exact pet"),
    }
    match parse_command(&argv(&["eggs", "pet", "cloud", "dino"])) {
        CliCommand::PetSourceUnknown(src) => assert_eq!(src, "cloud"),
        _ => panic!("expected an unknown source"),
    }
    assert!(matches!(parse_command(&argv(&["eggs", "pet"])), CliCommand::PetUsage));
}
