use eggs::state::{
    app_dir, clamp_scale, default_state, hatch_state_path, mark_pet_hatched, normalize_hatch_state,
    normalize_state, set_pet, set_pet_exact, set_scale, set_state, set_window_position, state_path, HatchState,
    RuntimeState,
};
use eggs::text::{
    decimal_exec, eq_ignore_ascii_case_exec, join_path, join_with, lex_lt_exec, lines_of,
    parse_unsigned, split_on, trim, trim_end_matches_char, trim_start_exec,
};

fn s(x: &str) -> String {
    x.to_string()
}

fn runtime(pet: &str, state: &str, scale: u16) -> RuntimeState {
    RuntimeState {
        pet: s(pet),
        pet_source: None,
        state: s(state),
        scale_millis: scale,
        window_x: None,
        window_y: None,
    }
}

#[test]
fn trims_unicode_white_space() {
    assert_eq!(trim("  \u{3000}hi there\t\n"), "hi there");
    assert_eq!(trim_start_exec("  a b "), "a b ");
    assert_eq!(trim_end_matches_char("http://x///", '/'), "http://x");
}

#[test]
fn joins_paths_like_unix() {
    assert_eq!(join_path("/home/u", ".eggs"), "/home/u/.eggs");
    assert_eq!(join_path("/home/u/", ".eggs"), "/home/u/.eggs");
    assert_eq!(join_path("", ".eggs"), ".eggs");
    assert_eq!(join_path("/a", "/abs"), "/abs");
}

#[test]
fn formats_and_parses_numbers() {
    assert_eq!(decimal_exec(0), "0");
    assert_eq!(decimal_exec(8787), "8787");
    assert_eq!(parse_unsigned("65535", 65535), Some(65535));
    assert_eq!(parse_unsigned("65536", 65535), None);
    assert_eq!(parse_unsigned("+12", 65535), Some(12));
    assert_eq!(parse_unsigned("+", 65535), None);
    assert_eq!(parse_unsigned("", 65535), None);
    assert_eq!(parse_unsigned("1x", 65535), None);
    assert_eq!(parse_unsigned("-1", 65535), None);
    let written = decimal_exec(4_000_000_000);
    assert_eq!(parse_unsigned(&written, 0xffff_ffff), Some(4_000_000_000));
}

#[test]
fn splits_and_joins() {
    assert_eq!(split_on("a;b;;c", ';'), vec![s("a"), s("b"), s(""), s("c")]);
    assert_eq!(split_on("", ';'), vec![s("")]);
    assert_eq!(split_on("a;", ';'), vec![s("a"), s("")]);
    assert_eq!(join_with(&vec![s("a"), s("b")], ";"), "a;b");
    assert_eq!(join_with(&vec![], ";"), "");
    assert_eq!(lines_of("one\r\ntwo\nthree\n"), vec![s("one"), s("two"), s("three")]);
    assert_eq!(lines_of(""), Vec::<String>::new());
    assert_eq!(lines_of("a\r"), vec![s("a\r")]);
}

#[test]
fn compares_strings() {
    assert!(lex_lt_exec("abc", "abd"));
    assert!(lex_lt_exec("ab", "abc"));
    assert!(!lex_lt_exec("b", "abc"));
    assert!(eq_ignore_ascii_case_exec("C:\\Program Files\\Eggs", "c:\\program files\\EGGS"));
    assert!(!eq_ignore_ascii_case_exec("Ä", "ä"));
}

#[test]
fn app_dir_prefers_the_environment() {
    assert_eq!(app_dir(Some(s("/data/eggs")), Some(s("/home/u"))), "/data/eggs");
    assert_eq!(app_dir(None, Some(s("/home/u"))), "/home/u/.eggs");
    assert_eq!(app_dir(None, None), ".eggs");
    assert_eq!(state_path("/home/u/.eggs"), "/home/u/.eggs/state.json");
    assert_eq!(hatch_state_path("/home/u/.eggs"), "/home/u/.eggs/hatch-state.json");
}

#[test]
fn default_state_uses_first_pet() {
    let d = default_state(Some(s("buddy")));
    assert_eq!(d, runtime("buddy", "idle", 1000));
    let d = default_state(None);
    assert_eq!(d.pet, "noir-webling");
}

#[test]
fn normalize_fills_gaps_and_is_idempotent() {
    let n = normalize_state(runtime("", "", 700), Some(s("buddy")));
    assert_eq!(n, runtime("buddy", "idle", 1000));
    let again = normalize_state(n.clone(), Some(s("other")));
    assert_eq!(again, n);
    let kept = normalize_state(runtime("cat", "waving", 400), None);
    assert_eq!(kept, runtime("cat", "waving", 400));
    let fallback = normalize_state(runtime("", "idle", 500), None);
    assert_eq!(fallback.pet, "noir-webling");
}

#[test]
fn setters_change_one_field() {
    let base = runtime("cat", "idle", 1000);
    assert_eq!(set_state(base.clone(), "waving").state, "waving");
    let moved = set_window_position(base.clone(), -5, 40);
    assert_eq!((moved.window_x, moved.window_y), (Some(-5), Some(40)));
    assert_eq!(set_pet(base.clone(), "dog").pet, "dog");
    assert_eq!(set_scale(base.clone(), 600).scale_millis, 600);
    assert_eq!(clamp_scale(600), 600);
    assert_eq!(clamp_scale(700), 1000);
}

#[test]
fn hatch_state_is_sorted_and_idempotent() {
    let h = normalize_hatch_state(HatchState { completed: vec![s(" b "), s(""), s("a")] });
    assert_eq!(h.completed, vec![s("b"), s("a")]);
    let once = mark_pet_hatched("  c ", HatchState { completed: vec![s("b"), s("a")] }).unwrap();
    assert_eq!(once.completed, vec![s("a"), s("b"), s("c")]);
    let twice = mark_pet_hatched("c", once.clone()).unwrap();
    assert_eq!(twice.completed, once.completed);
    assert!(mark_pet_hatched("   ", HatchState::default()).is_none());
}

#[test]
fn the_pet_source_is_saved_with_the_pet() {
    let base = runtime("dino", "idle", 1000);
    let exact = set_pet_exact(base.clone(), "remote", "cat");
    assert_eq!(exact.pet, "cat");
    assert_eq!(exact.pet_source, Some(s("remote")));
    assert_eq!(exact.state, "idle");
    let plain = set_pet(exact.clone(), "dog");
    assert_eq!(plain.pet, "dog");
    assert_eq!(plain.pet_source, None);
    let kept = normalize_state(exact.clone(), None);
    assert_eq!(kept.pet_source, Some(s("remote")));
    let mut blank = exact;
    blank.pet = s("");
    assert_eq!(normalize_state(blank, Some(s("buddy"))).pet_source, None);
}
