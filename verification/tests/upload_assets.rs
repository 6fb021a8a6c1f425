use eggs::pet::{PetLoadError, PetManifest};
use eggs::remote_assets::{
    asset_dir, asset_id_from_url, asset_id_hint, asset_paths, cache_root, list_cached_sprite_ids,
    needs_promotion, sprite_extension_from_url, AssetError, CacheEntry,
};
use eggs::state::RuntimeState;
use eggs::upload::{
    hex_encode, phase_one_body, phase_one_outcome, phase_two_body, phase_two_outcome,
    sha256_hex, sheet_mime, sprites_endpoint, switch_pet, upload_files, upload_source, AnswerBody, BodyRead,
    UploadError, UploadMode,
};

fn s(x: &str) -> String {
    x.to_string()
}

fn manifest(sheet: Option<&str>, manifest_abs: Option<&str>, name: &str) -> PetManifest {
    PetManifest {
        id: s("dino"),
        display_name: s(name),
        description: String::new(),
        spritesheet_path: s("spritesheet.webp"),
        custom: Vec::new(),
        hatch: Vec::new(),
        spritesheet_abs: sheet.map(s),
        manifest_abs: manifest_abs.map(s),
        source_kind: Some(s("local")),
    }
}

#[test]
fn sha256_hex_matches_known_digests() {
    assert_eq!(
        sha256_hex(b""),
        "e3b0c44298fc1c149afbf4c8996fb92427ae41e4649b934ca495991b7852b855"
    );
    assert_eq!(
        sha256_hex(b"abc"),
        "ba7816bf8f01cfea414140de5dae2223b00361a396177a9cb410ff61f20015ad"
    );
    assert_eq!(sha256_hex(b"abc").len(), 64);
}

#[test]
fn hex_encode_pads_each_byte() {
    assert_eq!(hex_encode(&vec![0u8, 1, 0xab, 0xff]), "0001abff");
    assert_eq!(hex_encode(&Vec::new()), "");
}

#[test]
fn upload_error_messages_and_retry() {
    assert_eq!(UploadError::Io(s("boom")).message(), "io error: boom");
    assert_eq!(UploadError::Http(s("timeout")).message(), "http error: timeout");
    assert_eq!(
        UploadError::Server { status: 500, body: String::new() }.message(),
        "server returned HTTP 500"
    );
    assert_eq!(
        UploadError::Server { status: 409, body: s("conflict") }.message(),
        "server returned HTTP 409: conflict"
    );
    assert_eq!(
        UploadError::PetNotInstalled(s("local:dino")).message(),
        "pet 'local:dino' is not installed under ~/.eggs/pets/ or ~/.codex/pets/ (use `eggs install <dir>` or hatch-pet)"
    );
    assert!(UploadError::Http(s("x")).is_retryable());
    assert!(!UploadError::Io(s("x")).is_retryable());
    assert!(!UploadError::PetNotInstalled(s("x")).is_retryable());
    assert!(UploadError::Server { status: 500, body: String::new() }.is_retryable());
    assert!(UploadError::Server { status: 429, body: String::new() }.is_retryable());
    for st in [400u16, 401, 403, 404, 409, 422] {
        assert!(!UploadError::Server { status: st, body: String::new() }.is_retryable());
    }
}

#[test]
fn upload_files_reads_the_loaded_pet() {
    let f = upload_files(
        "dino",
        "local",
        Ok(manifest(Some("/p/dino/spritesheet.webp"), None, "")),
    )
    .unwrap();
    assert_eq!(f.sheet_path, "/p/dino/spritesheet.webp");
    assert_eq!(f.manifest_path, "/p/dino/pet.json");
    assert_eq!(f.display_name, "dino");
    assert_eq!(f.sheet_filename, "spritesheet.webp");

    let g = upload_files(
        "dino",
        "local",
        Ok(manifest(Some("/p/dino/sheet.png"), Some("/p/dino/sprite.json"), "Dino")),
    )
    .unwrap();
    assert_eq!(g.manifest_path, "/p/dino/sprite.json");
    assert_eq!(g.display_name, "Dino");
    assert_eq!(g.sheet_filename, "sheet.png");

    match upload_files("dino", "remote", Err(PetLoadError::NotFound)) {
        Err(UploadError::PetNotInstalled(t)) => assert_eq!(t, "remote:dino"),
        other => panic!("unexpected {other:?}"),
    }
    match upload_files("dino", "local", Ok(manifest(None, None, ""))) {
        Err(UploadError::PetNotInstalled(t)) => assert_eq!(t, "local:dino"),
        other => panic!("unexpected {other:?}"),
    }
}

#[test]
fn endpoint_and_mime() {
    assert_eq!(sprites_endpoint("https://eggs.example//"), "https://eggs.example/api/v1/sprites");
    assert_eq!(sprites_endpoint("http://h:8080"), "http://h:8080/api/v1/sprites");
    assert_eq!(sheet_mime("a.png"), "image/png");
    assert_eq!(sheet_mime("a.webp"), "image/webp");
    assert_eq!(sheet_mime("a.PNG"), "image/webp");
}

#[test]
fn hash_phase_answers() {
    assert!(matches!(phase_one_body(200), BodyRead::Record));
    assert!(matches!(phase_one_body(201), BodyRead::Record));
    assert!(matches!(phase_one_body(404), BodyRead::Missing));
    assert!(matches!(phase_one_body(500), BodyRead::Text));

    let o = phase_one_outcome(200, AnswerBody::Record(Ok(s("sp1")))).unwrap().unwrap();
    assert_eq!(o.sprite_id, "sp1");
    assert_eq!(o.mode, UploadMode::Reused);
    let o = phase_one_outcome(201, AnswerBody::Record(Ok(s("sp2")))).unwrap().unwrap();
    assert_eq!(o.mode, UploadMode::HashRegistered);
    assert!(phase_one_outcome(404, AnswerBody::Missing(vec![s("sprite")])).unwrap().is_none());
    assert_eq!(
        phase_one_outcome(404, AnswerBody::Missing(Vec::new())).unwrap_err(),
        UploadError::Server { status: 404, body: s("missing-blobs response had empty list") }
    );
    assert_eq!(
        phase_one_outcome(500, AnswerBody::Text(s("  oops \n"))).unwrap_err(),
        UploadError::Server { status: 500, body: s("oops") }
    );
    assert_eq!(
        phase_one_outcome(200, AnswerBody::Record(Err(s("bad json")))).unwrap_err(),
        UploadError::Http(s("bad json"))
    );
}

#[test]
fn full_upload_answers() {
    assert!(matches!(phase_two_body(201), BodyRead::Record));
    assert!(matches!(phase_two_body(299), BodyRead::Record));
    assert!(matches!(phase_two_body(413), BodyRead::Text));
    let o = phase_two_outcome(201, AnswerBody::Record(Ok(s("new")))).unwrap();
    assert_eq!(o.sprite_id, "new");
    assert_eq!(o.mode, UploadMode::BytesUploaded);
    let o = phase_two_outcome(200, AnswerBody::Record(Ok(s("old")))).unwrap();
    assert_eq!(o.mode, UploadMode::Reused);
    assert_eq!(
        phase_two_outcome(413, AnswerBody::Text(s(" too big "))).unwrap_err(),
        UploadError::Server { status: 413, body: s("too big") }
    );
}

#[test]
fn asset_ids_from_urls() {
    assert_eq!(cache_root("/home/u/.eggs"), "/home/u/.eggs/remote");
    assert_eq!(
        asset_id_from_url("https://eggs.example/assets/abc123/spritesheet.webp"),
        Some(s("abc123"))
    );
    assert_eq!(
        asset_id_from_url("https://eggs.example/assets/a.b!c/pet.json?x=1"),
        Some(s("abc"))
    );
    assert_eq!(asset_id_from_url("https://eggs.example/only"), None);
    assert_eq!(asset_id_from_url("not a url"), None);
    assert_eq!(asset_id_hint("https://eggs.example/assets/abc123/pet.json"), Some(s("abc123")));
    assert_eq!(
        sprite_extension_from_url("https://eggs.example/assets/x/sheet.PNG"),
        Some(s("png"))
    );
    assert_eq!(
        sprite_extension_from_url("https://eggs.example/assets/x/sheet.webp"),
        Some(s("webp"))
    );
    assert_eq!(sprite_extension_from_url("https://eggs.example/assets/x/sheet.gif"), None);
}

#[test]
fn asset_locations() {
    let (id, dir) = asset_dir(
        "/c/remote",
        "https://h/x",
        "https://h/assets/fromjson/pet.json",
    )
    .unwrap();
    assert_eq!(id, "fromjson");
    assert_eq!(dir, "/c/remote/fromjson");
    assert_eq!(
        asset_dir("/c/remote", "bad", "also bad").unwrap_err(),
        AssetError::InvalidUrl(s("bad"))
    );
    assert_eq!(AssetError::InvalidUrl(s("bad")).message(), "invalid asset url: bad");

    let p = asset_paths(s("abc"), s("/c/remote/abc"), "https://h/assets/abc/s.gif", true, true);
    assert_eq!(p.sprite_path, "/c/remote/abc/spritesheet.webp");
    assert_eq!(p.legacy_sprite_path, "/c/remote/abc/sprite.webp");
    assert_eq!(p.json_path, "/c/remote/abc/pet.json");
    assert_eq!(p.legacy_json_path, "/c/remote/abc/sprite.json");
    assert_eq!(p.config_path, Some(s("/c/remote/abc/config.json")));
    let q = asset_paths(s("abc"), s("/c/remote/abc"), "https://h/assets/abc/s.gif", false, false);
    assert_eq!(q.sprite_path, "/c/remote/abc/spritesheet.png");
    assert_eq!(q.config_path, None);
    let r = asset_paths(s("abc"), s("/d"), "https://h/assets/abc/s.webp", false, false);
    assert_eq!(r.sprite_path, "/d/spritesheet.webp");

    assert!(needs_promotion(false, true));
    assert!(!needs_promotion(true, true));
    assert!(!needs_promotion(false, false));
}

fn entry(name: &str, json: bool, png: bool) -> CacheEntry {
    CacheEntry {
        name: s(name),
        has_pet_json: json,
        has_sprite_json: false,
        has_spritesheet_png: png,
        has_spritesheet_webp: false,
        has_sprite_png: false,
        has_sprite_webp: false,
    }
}

#[test]
fn cached_sprite_ids_are_sorted_and_complete() {
    let entries = vec![
        entry("zeta", true, true),
        entry("blobs", true, true),
        entry("alpha", true, true),
        entry("half", true, false),
        entry("alpha", true, true),
        entry("", true, true),
    ];
    assert_eq!(list_cached_sprite_ids(&entries), vec![s("alpha"), s("zeta")]);
}

#[test]
fn pet_switch_waits_for_the_upload() {
    let current = RuntimeState {
        pet: s("dino"),
        pet_source: None,
        state: s("waving"),
        scale_millis: 600,
        window_x: Some(3),
        window_y: Some(4),
    };
    let next = switch_pet(current.clone(), "cat", None, false, Err(UploadError::Http(s("down")))).unwrap();
    assert_eq!(next.pet, "cat");
    assert_eq!(next.state, "waving");
    assert_eq!(next.scale_millis, 600);
    assert_eq!(next.window_x, Some(3));
    let next = switch_pet(current.clone(), "cat", None, true, Ok(())).unwrap();
    assert_eq!(next.pet, "cat");
    assert_eq!(
        switch_pet(current.clone(), "cat", Some("remote"), true, Err(UploadError::Http(s("down")))).unwrap_err(),
        "remote sprite upload failed for 'cat': http error: down"
    );
}

#[test]
fn an_exact_switch_saves_the_source_and_uploads_under_it() {
    let current = RuntimeState {
        pet: s("dino"),
        pet_source: None,
        state: s("idle"),
        scale_millis: 1000,
        window_x: None,
        window_y: None,
    };
    let next = switch_pet(current.clone(), "cat", Some("remote"), true, Ok(())).unwrap();
    assert_eq!(next.pet, "cat");
    assert_eq!(next.pet_source, Some(s("remote")));
    assert_eq!(upload_source(&next, "cat", Some(s("local"))), "remote");
    assert_eq!(upload_source(&next, "dog", Some(s("builtin"))), "builtin");
    assert_eq!(upload_source(&current, "dino", None), "local");
    assert_eq!(upload_source(&current, "dino", Some(s("remote"))), "remote");
}
