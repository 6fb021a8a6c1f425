use eggs::pet::{
    builtin_sync_plan, first_available_pet_info, list_installed_pets, load_manifest_from_dir,
    load_pet, load_pet_exact, manifest_path_for, needs_copy, pet_roots, pet_search_dirs, pets_dirs,
    preferred_source_for_pet, primary_pets_dir, resolve_spritesheet_path, sanitize_manifest_states,
    spritesheet_candidates, AnimationStateDef, EntryProbe, ManifestProbe, PetInfo, PetLoadError,
    PetManifest, PetRoot, PetRootKind, RootListing, RootProbe,
};

fn s(x: &str) -> String {
    x.to_string()
}

fn manifest(id: &str, name: &str, sheet: &str) -> PetManifest {
    PetManifest {
        id: s(id),
        display_name: s(name),
        description: s(""),
        spritesheet_path: s(sheet),
        custom: vec![],
        hatch: vec![],
        spritesheet_abs: None,
        manifest_abs: None,
        source_kind: None,
    }
}

fn state(name: &str) -> AnimationStateDef {
    AnimationStateDef { state: s(name), row: 0, frames: 1, durations: vec![100] }
}

fn parsed(m: PetManifest, sheets: [bool; 5]) -> ManifestProbe {
    ManifestProbe { parsed: Some(m), sheet_exists: sheets.to_vec() }
}

fn missing() -> ManifestProbe {
    ManifestProbe { parsed: None, sheet_exists: vec![] }
}

const ONLY_SPRITESHEET_PNG: [bool; 5] = [true, false, false, false, true];

#[test]
fn remote_cache_accepts_pet_json() {
    let dir = "/tmp/eggs-pet-test-pet-json";
    let probes = vec![
        parsed(manifest("manifest-id", "Remote Buddy", "spritesheet.png"), ONLY_SPRITESHEET_PNG),
        missing(),
    ];
    let (manifest, manifest_path) =
        load_manifest_from_dir(dir, PetRootKind::RemoteCache, Some("remote-cache-id"), probes)
            .expect("remote cache should load from pet.json");
    assert_eq!(manifest.id, "remote-cache-id");
    assert_eq!(manifest.display_name, "Remote Buddy");
    assert_eq!(manifest_path, format!("{dir}/pet.json"));
    assert_eq!(manifest.manifest_abs, Some(format!("{dir}/pet.json")));
    assert_eq!(manifest.spritesheet_abs, Some(format!("{dir}/spritesheet.png")));
}

#[test]
fn remote_cache_falls_back_to_legacy_sprite_json() {
    let dir = "/tmp/eggs-pet-test-sprite-json";
    let probes = vec![
        missing(),
        parsed(manifest("manifest-id", "Remote Buddy", "spritesheet.png"), ONLY_SPRITESHEET_PNG),
    ];
    let (manifest, manifest_path) =
        load_manifest_from_dir(dir, PetRootKind::RemoteCache, Some("remote-cache-id"), probes)
            .expect("remote cache should load from sprite.json");
    assert_eq!(manifest.id, "remote-cache-id");
    assert_eq!(manifest_path, format!("{dir}/sprite.json"));
    assert_eq!(manifest.manifest_abs, Some(format!("{dir}/sprite.json")));
}

#[test]
fn installed_dirs_read_only_pet_json() {
    let probes = vec![parsed(manifest("cat", "Cat", "sheet.webp"), [false, false, true, false, false])];
    let (m, path) = load_manifest_from_dir("/p/cat", PetRootKind::Installed, None, probes).unwrap();
    assert_eq!(m.id, "cat");
    assert_eq!(path, "/p/cat/pet.json");
    assert_eq!(m.spritesheet_abs, Some(s("/p/cat/sprite.png")));
    assert_eq!(m.source_kind, Some(s("local")));
    let none = load_manifest_from_dir(
        "/p/cat",
        PetRootKind::Builtin,
        None,
        vec![parsed(manifest("cat", "Cat", "sheet.webp"), [false; 5])],
    );
    assert!(none.is_none());
}

#[test]
fn custom_states_must_be_new_and_named() {
    let mut m = manifest("cat", "Cat", "s.png");
    m.custom = vec![state("dance"), state(" idle ")];
    let before = m.clone();
    assert!(!sanitize_manifest_states(&mut m));
    assert_eq!(m.custom.len(), before.custom.len());
    let mut ok = manifest("cat", "Cat", "s.png");
    ok.custom = vec![state("dance")];
    ok.hatch = vec![state("crack"), state(""), state(" crack "), state("hatch")];
    assert!(sanitize_manifest_states(&mut ok));
    let names: Vec<String> = ok.hatch.iter().map(|d| d.state.clone()).collect();
    assert_eq!(names, vec![s("crack"), s("hatch")]);
}

#[test]
fn spritesheet_candidates_in_order() {
    let m = manifest("cat", "Cat", "atlas.webp");
    assert_eq!(
        spritesheet_candidates("/d", &m),
        vec![
            s("/d/atlas.webp"),
            s("/d/sprite.webp"),
            s("/d/sprite.png"),
            s("/d/spritesheet.webp"),
            s("/d/spritesheet.png")
        ]
    );
    assert_eq!(
        resolve_spritesheet_path("/d", &m, &vec![false, false, false, true, true]),
        Some(s("/d/spritesheet.webp"))
    );
    assert_eq!(resolve_spritesheet_path("/d", &m, &vec![false; 5]), None);
    assert_eq!(manifest_path_for("/d", PetRootKind::RemoteCache), "/d/pet.json");
}

#[test]
fn search_dirs_follow_the_environment() {
    let dirs = pets_dirs(None, vec![s("/app/builtin")], Some(s("/home/u")), None);
    assert_eq!(dirs, vec![s("/app/builtin"), s("/home/u/.eggs/pets"), s("/home/u/.codex/pets")]);
    let dirs = pets_dirs(None, vec![], Some(s("/home/u")), Some(s("/codex")));
    assert_eq!(dirs, vec![s("/home/u/.eggs/pets"), s("/codex/pets")]);
    let dirs = pets_dirs(Some(s("/override")), vec![s("/app/builtin")], Some(s("/home/u")), None);
    assert_eq!(dirs, vec![s("/override")]);
    assert_eq!(primary_pets_dir(vec![], &vec![]), "pets");
    let roots = pet_roots(vec![s("/app/builtin"), s("/home/u/.eggs/pets")], &vec![s("/app/builtin")], "/app");
    assert_eq!(roots.len(), 3);
    assert_eq!(roots[0].kind, PetRootKind::Builtin);
    assert_eq!(roots[1].kind, PetRootKind::Installed);
    assert_eq!(roots[2].path, "/app/remote");
    assert_eq!(roots[2].kind, PetRootKind::RemoteCache);
    assert_eq!(pet_search_dirs(&roots), vec![s("/app/builtin"), s("/home/u/.eggs/pets"), s("/app/remote")]);
}

fn roots() -> Vec<PetRoot> {
    vec![
        PetRoot { path: s("/b"), kind: PetRootKind::Builtin },
        PetRoot { path: s("/l"), kind: PetRootKind::Installed },
        PetRoot { path: s("/r"), kind: PetRootKind::RemoteCache },
    ]
}

fn absent_root() -> RootProbe {
    RootProbe { dir_exists: false, manifests: vec![], manifest_exists: false }
}

#[test]
fn load_pet_takes_the_first_root_that_loads() {
    let probes = vec![
        absent_root(),
        RootProbe {
            dir_exists: true,
            manifests: vec![parsed(manifest("cat", "Cat", "s.png"), ONLY_SPRITESHEET_PNG)],
            manifest_exists: true,
        },
        RootProbe {
            dir_exists: true,
            manifests: vec![missing(), missing()],
            manifest_exists: false,
        },
    ];
    let m = load_pet("cat", &roots(), probes).unwrap();
    assert_eq!(m.manifest_abs, Some(s("/l/cat/pet.json")));
    assert_eq!(m.source_kind, Some(s("local")));
}

#[test]
fn load_pet_reports_the_last_invalid_manifest() {
    let bad = || RootProbe { dir_exists: true, manifests: vec![missing()], manifest_exists: true };
    let probes = vec![bad(), bad(), absent_root()];
    match load_pet("cat", &roots(), probes) {
        Err(PetLoadError::InvalidManifest(p)) => assert_eq!(p, "/l/cat/pet.json"),
        _ => panic!("expected an invalid manifest"),
    }
    let probes = vec![absent_root(), absent_root(), absent_root()];
    assert!(matches!(load_pet("cat", &roots(), probes), Err(PetLoadError::NotFound)));
}

#[test]
fn load_pet_exact_only_looks_at_the_source() {
    let probes = vec![
        RootProbe {
            dir_exists: true,
            manifests: vec![parsed(manifest("cat", "Cat", "s.png"), ONLY_SPRITESHEET_PNG)],
            manifest_exists: true,
        },
        absent_root(),
        RootProbe {
            dir_exists: true,
            manifests: vec![parsed(manifest("whatever", "Remote Cat", "s.png"), ONLY_SPRITESHEET_PNG), missing()],
            manifest_exists: true,
        },
    ];
    let m = load_pet_exact("cat", "remote", &roots(), probes).unwrap();
    assert_eq!(m.id, "cat");
    assert_eq!(m.display_name, "Remote Cat");
    assert_eq!(m.source_kind, Some(s("remote")));
}

fn entry(name: &str, m: Option<PetManifest>, remote: bool) -> EntryProbe {
    let first = match m {
        Some(m) => parsed(m, ONLY_SPRITESHEET_PNG),
        None => missing(),
    };
    let manifests = if remote { vec![first, missing()] } else { vec![first] };
    EntryProbe { name: s(name), manifests }
}

fn info(id: &str, remote: bool, builtin: bool) -> PetInfo {
    PetInfo { id: s(id), display_name: s(id), manifest_path: s(""), remote, builtin }
}

#[test]
fn installed_pets_first_wins_and_sorted() {
    let listings = vec![
        RootListing {
            exists: true,
            entries: vec![entry("zeta", Some(manifest("zeta", "Zeta", "s.png")), false)],
        },
        RootListing {
            exists: true,
            entries: vec![
                entry("zeta", Some(manifest("zeta", "Other Zeta", "s.png")), false),
                entry("alpha", Some(manifest("alpha", "Alpha", "s.png")), false),
                entry("broken", None, false),
            ],
        },
        RootListing {
            exists: true,
            entries: vec![entry("abc123", Some(manifest("ignored", "Peer", "s.png")), true)],
        },
    ];
    let pets = list_installed_pets(&roots(), listings);
    let ids: Vec<(String, bool, bool)> = pets.iter().map(|p| (p.id.clone(), p.remote, p.builtin)).collect();
    assert_eq!(
        ids,
        vec![(s("alpha"), false, false), (s("zeta"), false, true), (s("abc123"), true, false)]
    );
    assert_eq!(pets[1].display_name, "Zeta");
    assert_eq!(pets[1].manifest_path, "/b/zeta/pet.json");
    assert_eq!(pets[2].manifest_path, "/r/abc123/pet.json");
}

#[test]
fn first_available_prefers_builtin_then_local_then_id() {
    let pets = vec![info("b", true, false), info("z", false, false), info("y", false, true), info("a", false, false)];
    assert_eq!(first_available_pet_info(pets).unwrap().id, "y");
    let pets = vec![info("z", false, false), info("a", false, false)];
    assert_eq!(first_available_pet_info(pets).unwrap().id, "a");
    assert!(first_available_pet_info(vec![]).is_none());
    let pets = vec![info("a", true, false), info("b", false, false)];
    assert_eq!(preferred_source_for_pet("a", &pets), Some(s("remote")));
    assert_eq!(preferred_source_for_pet("b", &pets), Some(s("local")));
    assert_eq!(preferred_source_for_pet("c", &pets), None);
    assert_eq!(info("x", true, true).source_kind(), "builtin");
}

#[test]
fn builtin_sync_copies_first_of_each_and_prunes() {
    let mut a = manifest("alpha", "Alpha", "s.png");
    a.spritesheet_abs = Some(s("/src1/alpha/spritesheet.png"));
    let mut a2 = manifest("alpha", "Alpha 2", "s.png");
    a2.spritesheet_abs = Some(s("/src2/alpha/spritesheet.png"));
    let b = manifest("beta", "Beta", "s.png");
    let loaded = vec![
        (a, s("/src1/alpha/pet.json")),
        (a2, s("/src2/alpha/pet.json")),
        (b, s("/src2/beta/pet.json")),
    ];
    let plan = builtin_sync_plan("/app/builtin", &loaded, &vec![s("alpha"), s("old")]);
    assert_eq!(plan.copies.len(), 2);
    assert_eq!(plan.copies[0].manifest_src, "/src1/alpha/pet.json");
    assert_eq!(plan.copies[0].manifest_dst, "/app/builtin/alpha/pet.json");
    assert_eq!(
        plan.copies[0].sheet,
        Ok((s("/src1/alpha/spritesheet.png"), s("/app/builtin/alpha/spritesheet.png")))
    );
    assert_eq!(plan.copies[1].sheet, Err(s("builtin spritesheet missing")));
    assert_eq!(plan.removals, vec![s("old")]);
    assert!(needs_copy(false, b"x", b""));
    assert!(!needs_copy(true, b"same", b"same"));
    assert!(needs_copy(true, b"one", b"two"));
}

#[test]
fn builtin_source_dirs_in_order_each_once() {
    let dirs = eggs::pet::builtin_source_dirs(
        None,
        String::from("/repo/desktop/pets"),
        Some(String::from("/repo/desktop")),
        Some(String::from("/repo")),
    );
    assert_eq!(
        dirs,
        vec![
            String::from("/repo/desktop/pets"),
            String::from("/repo/desktop/../../../pets"),
            String::from("/repo/desktop/../../../../pets"),
            String::from("/repo/desktop/../pets"),
            String::from("/repo/desktop/../../pets"),
            String::from("/repo/pets"),
        ]
    );
    assert_eq!(
        eggs::pet::builtin_source_dirs(Some(String::from("/x")), String::from("/s"), None, None),
        vec![String::from("/x")]
    );
    assert!(eggs::pet::builtin_source_dirs(Some(String::new()), String::from("/s"), None, None).is_empty());
}

#[test]
fn install_goes_to_the_eggs_pets_directory() {
    let builtin = vec![s("/home/u/.eggs/builtin")];
    let dirs = pets_dirs(None, builtin.clone(), Some(s("/home/u")), None);
    assert_eq!(primary_pets_dir(dirs, &builtin), "/home/u/.eggs/pets");
    let dirs = pets_dirs(Some(s("/override")), builtin.clone(), Some(s("/home/u")), None);
    assert_eq!(primary_pets_dir(dirs, &builtin), "/override");
    assert_eq!(primary_pets_dir(vec![s("/b")], &vec![s("/b")]), "pets");
}

fn sample_listings() -> Vec<RootListing> {
    vec![
        RootListing {
            exists: true,
            entries: vec![entry("zeta", Some(manifest("zeta", "Zeta", "s.png")), false)],
        },
        RootListing {
            exists: true,
            entries: vec![
                entry("zeta", Some(manifest("zeta", "Other Zeta", "s.png")), false),
                entry("alpha", Some(manifest("alpha", "Alpha", "s.png")), false),
            ],
        },
        RootListing {
            exists: true,
            entries: vec![entry("abc123", Some(manifest("ignored", "Peer", "s.png")), true)],
        },
    ]
}

/// What is found at `<root>/<id>` for each root, as the listings show it.
fn probes_for(id: &str) -> Vec<RootProbe> {
    sample_listings()
        .into_iter()
        .map(|l| match l.entries.into_iter().find(|e| e.name == id) {
            Some(e) => RootProbe { dir_exists: true, manifests: e.manifests, manifest_exists: true },
            None => absent_root(),
        })
        .collect()
}

#[test]
fn every_listed_pet_loads_from_its_preferred_source() {
    let pets = list_installed_pets(&roots(), sample_listings());
    assert_eq!(pets.len(), 3);
    for p in &pets {
        let source = preferred_source_for_pet(&p.id, &pets).unwrap();
        let m = load_pet_exact(&p.id, &source, &roots(), probes_for(&p.id)).unwrap();
        assert_eq!(m.id, p.id);
        assert_eq!(m.source_kind, Some(source));
    }
    assert_eq!(preferred_source_for_pet("zeta", &pets), Some(s("builtin")));
}
