//! The cache of peers' sprite assets under `<app dir>/remote/<content id>/`:
//! the content id and image type read off an asset URL, where each file is
//! kept (older `sprite.*` names are promoted in place), and which cache
//! entries are complete.
use vstd::prelude::*;

use crate::remote::{opt_view, parse_url, parsed_url, strings_view};
use crate::state::{insert_sorted_unique, names_view};
use crate::text::{
    filter_safe, join_path, lower_ascii_string, lower_seq, owned, path_join, push_str,
    safe_filter, sorted_strict, str_eq,
};

verus! {

#[derive(Debug, Clone)]
pub struct CachedAssets {
    pub asset_id: String,
    pub sprite_path: String,
    pub json_path: String,
    pub config_path: Option<String>,
}

#[derive(Debug, Clone, PartialEq, Eq)]
pub enum AssetError {
    InvalidUrl(String),
    /// A file could not be read or written (the error's text).
    Io(String),
    /// A download failed (the error's text).
    Http(String),
}

pub open spec fn asset_error_text(e: AssetError) -> Seq<char> {
    match e {
        AssetError::InvalidUrl(u) => "invalid asset url: "@ + u@,
        AssetError::Io(t) => "io error: "@ + t@,
        AssetError::Http(t) => "http error: "@ + t@,
    }
}

impl AssetError {
    pub fn message(&self) -> (r: String)
        ensures
            r@ == asset_error_text(*self),
    {
        let (head, tail) = match self {
            AssetError::InvalidUrl(u) => ("invalid asset url: ", u),
            AssetError::Io(t) => ("io error: ", t),
            AssetError::Http(t) => ("http error: ", t),
        };
        let mut s = owned(head);
        push_str(&mut s, tail.as_str());
        s
    }
}

/// `<app dir>/remote`.
pub fn cache_root(app_dir: &str) -> (r: String)
    ensures
        r@ == path_join(app_dir@, "remote"@),
{
    join_path(app_dir, "remote")
}

pub open spec fn non_empty(v: Seq<Seq<char>>) -> Seq<Seq<char>> {
    v.filter(|s: Seq<char>| s.len() > 0)
}

/// The content id of an asset URL `/assets/<id>/<file>`: the second to last
/// non-empty path segment, cut down to ASCII letters, digits, `-` and `_`;
/// none when that leaves nothing.
pub open spec fn asset_id_spec(raw: Seq<char>) -> Option<Seq<char>> {
    match parsed_url(raw) {
        Err(_) => None,
        Ok(p) => match p.segments {
            None => None,
            Some(segs) => {
                let ne = non_empty(segs);
                if ne.len() < 2 {
                    None
                } else {
                    let safe = safe_filter(ne[ne.len() - 2]);
                    if safe.len() == 0 {
                        None
                    } else {
                        Some(safe)
                    }
                }
            },
        },
    }
}

/// The non-empty strings of `v`, in order.
fn non_empty_strings(v: &Vec<String>) -> (r: Vec<String>)
    ensures
        strings_view(r@) == non_empty(strings_view(v@)),
{
    let mut out: Vec<String> = Vec::new();
    let mut i: usize = 0;
    while i < v.len()
        invariant
            i <= v@.len(),
            strings_view(out@) == non_empty(strings_view(v@.take(i as int))),
        decreases v.len() - i,
    {
        let ghost before = strings_view(out@);
        let ghost t0 = strings_view(v@.take(i as int));
        let ghost t1 = strings_view(v@.take(i + 1));
        proof {
            assert(t1 =~= t0.push(v@[i as int]@));
            t0.lemma_filter_push(v@[i as int]@, |s: Seq<char>| s.len() > 0);
        }
        if !v[i].as_str().is_empty() {
            out.push(v[i].clone());
            assert(strings_view(out@) =~= before.push(v@[i as int]@));
        }
        i += 1;
    }
    assert(v@.take(v@.len() as int) =~= v@);
    out
}

pub fn asset_id_from_url(raw: &str) -> (r: Option<String>)
    ensures
        opt_view(r) == asset_id_spec(raw@),
{
    let parts = match parse_url(raw) {
        Ok(p) => p,
        Err(_) => {
            return None;
        },
    };
    let segs = match &parts.segments {
        Some(v) => v,
        None => {
            return None;
        },
    };
    let ne = non_empty_strings(segs);
    if ne.len() < 2 {
        return None;
    }
    let id = &ne[ne.len() - 2];
    let safe = filter_safe(id.as_str());
    if safe.as_str().is_empty() {
        None
    } else {
        Some(safe)
    }
}

/// The content id of an asset URL, for telling a peer's pet swap apart
/// without touching the cache.
pub fn asset_id_hint(raw: &str) -> (r: Option<String>)
    ensures
        opt_view(r) == asset_id_spec(raw@),
{
    asset_id_from_url(raw)
}

/// What `std::path::Path::extension` gives for a file name, when it is
/// valid UTF-8.
pub uninterp spec fn path_extension(name: Seq<char>) -> Option<Seq<char>>;

/// `std::path::Path::extension` of a file name, as a string. The contract
/// names the result and says nothing more of it.
#[verifier::external_body]
pub(crate) fn extension_of(name: &str) -> (r: Option<String>)
    ensures
        opt_view(r) == path_extension(name@),
{
    std::path::Path::new(name).extension().and_then(|e| e.to_str()).map(|e| e.to_string())
}

/// The image type of a sprite URL: the extension of its last non-empty path
/// segment, lower-cased, when it is `png` or `webp`.
pub open spec fn sprite_ext_spec(raw: Seq<char>) -> Option<Seq<char>> {
    match parsed_url(raw) {
        Err(_) => None,
        Ok(p) => match p.segments {
            None => None,
            Some(segs) => {
                let ne = non_empty(segs);
                if ne.len() == 0 {
                    None
                } else {
                    match path_extension(ne.last()) {
                        None => None,
                        Some(e) => {
                            let l = lower_seq(e);
                            if l == "png"@ || l == "webp"@ {
                                Some(l)
                            } else {
                                None
                            }
                        },
                    }
                }
            },
        },
    }
}

pub fn sprite_extension_from_url(raw: &str) -> (r: Option<String>)
    ensures
        opt_view(r) == sprite_ext_spec(raw@),
{
    let parts = match parse_url(raw) {
        Ok(p) => p,
        Err(_) => {
            return None;
        },
    };
    let segs = match &parts.segments {
        Some(v) => v,
        None => {
            return None;
        },
    };
    let ne = non_empty_strings(segs);
    if ne.len() == 0 {
        return None;
    }
    let last = &ne[ne.len() - 1];
    let ext = match extension_of(last.as_str()) {
        Some(e) => e,
        None => {
            return None;
        },
    };
    let lower = lower_ascii_string(ext.as_str());
    if str_eq(lower.as_str(), "png") || str_eq(lower.as_str(), "webp") {
        Some(lower)
    } else {
        None
    }
}

/// Where the assets of one peer sprite are kept.
#[derive(Debug, Clone)]
pub struct AssetPaths {
    pub asset_id: String,
    pub dir: String,
    pub sprite_path: String,
    /// The older name of the spritesheet, promoted to `sprite_path`.
    pub legacy_sprite_path: String,
    pub json_path: String,
    /// The older name of the manifest, promoted to `json_path`.
    pub legacy_json_path: String,
    pub config_path: Option<String>,
}

/// The cache directory of a peer sprite: named by the content id of the
/// sprite URL, else of the manifest URL; an error when neither has one.
pub fn asset_dir(cache_root: &str, sprite_url: &str, json_url: &str) -> (r: Result<
    (String, String),
    AssetError,
>)
    ensures
        match (if asset_id_spec(sprite_url@) is Some {
            asset_id_spec(sprite_url@)
        } else {
            asset_id_spec(json_url@)
        }) {
            Some(id) => r matches Ok((a, d)) && a@ == id && d@ == path_join(cache_root@, id),
            None => r matches Err(AssetError::InvalidUrl(u)) && u@ == sprite_url@,
        },
{
    let id = match asset_id_from_url(sprite_url) {
        Some(i) => i,
        None => match asset_id_from_url(json_url) {
            Some(i) => i,
            None => {
                return Err(AssetError::InvalidUrl(owned(sprite_url)));
            },
        },
    };
    let dir = join_path(cache_root, id.as_str());
    Ok((id, dir))
}

/// The image type used for the spritesheet: the URL's, else `webp` when a
/// `webp` spritesheet is already cached, else `png`.
pub open spec fn sprite_ext_choice(sprite_url: Seq<char>, webp_cached: bool) -> Seq<char> {
    match sprite_ext_spec(sprite_url) {
        Some(e) => e,
        None => if webp_cached {
            "webp"@
        } else {
            "png"@
        },
    }
}

/// The files of a cache entry: `spritesheet.<ext>` (promoted from
/// `sprite.<ext>`), `pet.json` (promoted from `sprite.json`), and
/// `config.json` when the peer has a config URL. `webp_cached` says
/// whether `spritesheet.webp` or `sprite.webp` is already in the directory.
pub fn asset_paths(
    asset_id: String,
    dir: String,
    sprite_url: &str,
    webp_cached: bool,
    has_config: bool,
) -> (r: AssetPaths)
    ensures
        r.asset_id == asset_id,
        r.dir == dir,
        r.sprite_path@ == path_join(
            dir@,
            "spritesheet."@ + sprite_ext_choice(sprite_url@, webp_cached),
        ),
        r.legacy_sprite_path@ == path_join(
            dir@,
            "sprite."@ + sprite_ext_choice(sprite_url@, webp_cached),
        ),
        r.json_path@ == path_join(dir@, "pet.json"@),
        r.legacy_json_path@ == path_join(dir@, "sprite.json"@),
        opt_view(r.config_path) == (if has_config {
            Some(path_join(dir@, "config.json"@))
        } else {
            None
        }),
{
    let ext = match sprite_extension_from_url(sprite_url) {
        Some(e) => e,
        None => if webp_cached {
            owned("webp")
        } else {
            owned("png")
        },
    };
    let mut sheet = owned("spritesheet.");
    push_str(&mut sheet, ext.as_str());
    let mut legacy = owned("sprite.");
    push_str(&mut legacy, ext.as_str());
    let sprite_path = join_path(dir.as_str(), sheet.as_str());
    let legacy_sprite_path = join_path(dir.as_str(), legacy.as_str());
    let json_path = join_path(dir.as_str(), "pet.json");
    let legacy_json_path = join_path(dir.as_str(), "sprite.json");
    let config_path = if has_config {
        Some(join_path(dir.as_str(), "config.json"))
    } else {
        None
    };
    AssetPaths {
        asset_id,
        dir,
        sprite_path,
        legacy_sprite_path,
        json_path,
        legacy_json_path,
        config_path,
    }
}

/// An older file is copied to its current name only when the current file
/// is missing and the older one exists.
pub fn needs_promotion(target_exists: bool, legacy_exists: bool) -> (r: bool)
    ensures
        r == (!target_exists && legacy_exists),
{
    !target_exists && legacy_exists
}

/// A directory of the cache and which of its files exist.
#[derive(Debug, Clone)]
pub struct CacheEntry {
    pub name: String,
    pub has_pet_json: bool,
    pub has_sprite_json: bool,
    pub has_spritesheet_png: bool,
    pub has_spritesheet_webp: bool,
    pub has_sprite_png: bool,
    pub has_sprite_webp: bool,
}

/// A cache directory holds a sprite when it is named (and not the blob
/// store) and has a manifest and an image.
pub open spec fn entry_complete(e: CacheEntry) -> bool {
    &&& e.name@.len() > 0
    &&& e.name@ != "blobs"@
    &&& (e.has_pet_json || e.has_sprite_json)
    &&& (e.has_spritesheet_png || e.has_spritesheet_webp || e.has_sprite_png || e.has_sprite_webp)
}

/// The ids of the cached sprites (the names of the complete directories
/// among `entries`), sorted, each once.
pub fn list_cached_sprite_ids(entries: &Vec<CacheEntry>) -> (r: Vec<String>)
    ensures
        sorted_strict(names_view(r@)),
        forall|n: Seq<char>|
            names_view(r@).contains(n) <==> exists|i: int|
                0 <= i < entries@.len() && entry_complete(#[trigger] entries@[i])
                    && entries@[i].name@ == n,
{
    let mut out: Vec<String> = Vec::new();
    let mut i: usize = 0;
    while i < entries.len()
        invariant
            i <= entries@.len(),
            sorted_strict(names_view(out@)),
            forall|n: Seq<char>|
                names_view(out@).contains(n) <==> exists|k: int|
                    0 <= k < i && entry_complete(#[trigger] entries@[k]) && entries@[k].name@ == n,
        decreases entries.len() - i,
    {
        let e = &entries[i];
        let complete = !e.name.as_str().is_empty() && !str_eq(e.name.as_str(), "blobs") && (
        e.has_pet_json || e.has_sprite_json) && (e.has_spritesheet_png || e.has_spritesheet_webp
            || e.has_sprite_png || e.has_sprite_webp);
        let ghost before = names_view(out@);
        if complete {
            insert_sorted_unique(&mut out, e.name.clone());
        }
        proof {
            assert forall|n: Seq<char>|
                names_view(out@).contains(n) <==> exists|k: int|
                    0 <= k < i + 1 && entry_complete(#[trigger] entries@[k]) && entries@[k].name@
                        == n by {
                if exists|k: int|
                    0 <= k < i + 1 && entry_complete(#[trigger] entries@[k]) && entries@[k].name@
                        == n {
                    let k = choose|k: int|
                        0 <= k < i + 1 && entry_complete(#[trigger] entries@[k])
                            && entries@[k].name@ == n;
                    if k < i {
                        assert(before.contains(n));
                    }
                }
            }
        }
        i += 1;
    }
    out
}

/// What the list of cached sprites shows. Given a list that meets the
/// contract of [`list_cached_sprite_ids`] for `entries`: an entry with a
/// non-empty name other than `blobs`, a manifest (`pet.json` or
/// `sprite.json`) and any one of the images `spritesheet.png`,
/// `spritesheet.webp`, `sprite.png` or `sprite.webp` is listed; an entry
/// with no manifest, or with no image, whose name no other entry has, is
/// not.
pub proof fn law_cached_sprite_listed(entries: Seq<CacheEntry>, listed: Seq<Seq<char>>, i: int)
    requires
        0 <= i < entries.len(),
        forall|n: Seq<char>|
            #[trigger] listed.contains(n) <==> exists|k: int|
                0 <= k < entries.len() && entry_complete(#[trigger] entries[k]) && entries[k].name@
                    == n,
    ensures
        ({
            let e = entries[i];
            &&& (e.name@.len() > 0 && e.name@ != "blobs"@ && (e.has_pet_json || e.has_sprite_json)
                && (e.has_spritesheet_png || e.has_spritesheet_webp || e.has_sprite_png
                || e.has_sprite_webp)) ==> listed.contains(e.name@)
            &&& ((!e.has_pet_json && !e.has_sprite_json) || !(e.has_spritesheet_png
                || e.has_spritesheet_webp || e.has_sprite_png || e.has_sprite_webp)) && (forall|
                k: int|
                0 <= k < entries.len() && #[trigger] entries[k].name@ == e.name@ ==> k == i)
                ==> !listed.contains(e.name@)
        }),
{
    let e = entries[i];
    if e.name@.len() > 0 && e.name@ != "blobs"@ && (e.has_pet_json || e.has_sprite_json) && (
    e.has_spritesheet_png || e.has_spritesheet_webp || e.has_sprite_png || e.has_sprite_webp) {
        assert(entry_complete(entries[i]));
        assert(listed.contains(e.name@));
    }
}

} // verus!

