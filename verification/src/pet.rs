//! Pet manifests and where pets are found: the search roots in priority
//! order, the manifest and spritesheet files looked for in a pet directory,
//! the validation of custom and hatch animation states, the choice among
//! roots when a pet is loaded, and the list of installed pets.
use vstd::prelude::*;

use crate::text::{
    join_path, lemma_lex_irrefl, lemma_lex_total, lemma_lex_trans, lex_lt, lex_lt_exec, owned,
    path_join, str_eq, trim, trim_seq,
};

verus! {

#[derive(Debug, Clone)]
pub struct AnimationStateDef {
    pub state: String,
    pub row: u16,
    pub frames: u16,
    pub durations: Vec<u16>,
}

#[derive(Debug, Clone)]
pub struct PetManifest {
    pub id: String,
    pub display_name: String,
    pub description: String,
    pub spritesheet_path: String,
    /// Custom animation states appended after the built-in ones.
    pub custom: Vec<AnimationStateDef>,
    /// Hatch-process-only states (playable by name, hidden from the menu).
    pub hatch: Vec<AnimationStateDef>,
    /// Path of the spritesheet, filled in when the manifest is loaded.
    pub spritesheet_abs: Option<String>,
    /// Path of the manifest file it was loaded from.
    pub manifest_abs: Option<String>,
    /// `builtin`, `local` or `remote`, filled in when loaded.
    pub source_kind: Option<String>,
}

#[derive(Debug, Clone, PartialEq, Eq)]
pub struct PetInfo {
    pub id: String,
    pub display_name: String,
    pub manifest_path: String,
    pub remote: bool,
    pub builtin: bool,
}

#[derive(Debug, Clone, Copy, PartialEq, Eq, Structural)]
pub enum PetRootKind {
    Installed,
    Builtin,
    RemoteCache,
}

#[derive(Debug, Clone)]
pub struct PetRoot {
    pub path: String,
    pub kind: PetRootKind,
}

// ---------------------------------------------------------------------------
// sources and priorities
// ---------------------------------------------------------------------------

pub open spec fn source_kind_spec(builtin: bool, remote: bool) -> Seq<char> {
    if builtin {
        "builtin"@
    } else if remote {
        "remote"@
    } else {
        "local"@
    }
}

pub open spec fn root_source_spec(kind: PetRootKind) -> Seq<char> {
    match kind {
        PetRootKind::Builtin => "builtin"@,
        PetRootKind::Installed => "local"@,
        PetRootKind::RemoteCache => "remote"@,
    }
}

/// Built-in pets come first, then local ones, then cached remote ones.
pub open spec fn priority_spec(info: PetInfo) -> u8 {
    if info.builtin {
        0
    } else if info.remote {
        2
    } else {
        1
    }
}

impl PetInfo {
    /// `builtin`, `remote` or `local`.
    pub fn source_kind(&self) -> (r: &'static str)
        ensures
            r@ == source_kind_spec(self.builtin, self.remote),
    {
        if self.builtin {
            "builtin"
        } else if self.remote {
            "remote"
        } else {
            "local"
        }
    }
}

pub fn pet_priority(info: &PetInfo) -> (r: u8)
    ensures
        r == priority_spec(*info),
{
    if info.builtin {
        0
    } else if info.remote {
        2
    } else {
        1
    }
}

pub fn source_kind_for_root(kind: PetRootKind) -> (r: &'static str)
    ensures
        r@ == root_source_spec(kind),
{
    match kind {
        PetRootKind::Builtin => "builtin",
        PetRootKind::Installed => "local",
        PetRootKind::RemoteCache => "remote",
    }
}

// ---------------------------------------------------------------------------
// directories
// ---------------------------------------------------------------------------

pub open spec fn paths_view(v: Seq<String>) -> Seq<Seq<char>> {
    v.map_values(|s: String| s@)
}

pub proof fn lemma_paths_view(v: Seq<String>)
    ensures
        paths_view(v).len() == v.len(),
        forall|i: int| 0 <= i < v.len() ==> #[trigger] paths_view(v)[i] == v[i]@,
{
}

/// Appends `path` unless it is already listed.
pub fn push_unique_path(out: &mut Vec<String>, path: String)
    ensures
        paths_view(final(out)@) == (if paths_view(old(out)@).contains(path@) {
            paths_view(old(out)@)
        } else {
            paths_view(old(out)@).push(path@)
        }),
{
    let ghost pre = paths_view(out@);
    let mut i: usize = 0;
    while i < out.len()
        invariant
            i <= out@.len(),
            pre == paths_view(out@),
            forall|k: int| 0 <= k < i ==> pre[k] != path@,
        decreases out.len() - i,
    {
        if str_eq(out[i].as_str(), path.as_str()) {
            assert(pre[i as int] == path@);
            return;
        }
        i += 1;
    }
    out.push(path);
    assert(paths_view(out@) =~= pre.push(path@));
}

/// `<app dir>/builtin`, where built-in pets are synced to.
pub fn builtin_sync_dir(app_dir: &str) -> (r: String)
    ensures
        r@ == path_join(app_dir@, "builtin"@),
{
    join_path(app_dir, "builtin")
}

/// The directories built-in pets are served from at run time.
pub fn builtin_runtime_dirs(app_dir: &str) -> (r: Vec<String>)
    ensures
        paths_view(r@) == seq![path_join(app_dir@, "builtin"@)],
{
    let mut out: Vec<String> = Vec::new();
    push_unique_path(&mut out, builtin_sync_dir(app_dir));
    assert(paths_view(out@) =~= seq![path_join(app_dir@, "builtin"@)]);
    out
}

/// Every directory that is searched for pets, in priority order: the
/// override alone when `EGGS_PETS_DIR` is set; otherwise the built-in
/// directories, `~/.eggs/pets`, and `$CODEX_HOME/pets` (or `~/.codex/pets`).
pub fn pets_dirs(
    env_pets_dir: Option<String>,
    builtin_dirs: Vec<String>,
    home: Option<String>,
    codex_home: Option<String>,
) -> (r: Vec<String>)
    ensures
        paths_view(r@) == pets_dirs_spec(
            opt_str_view(env_pets_dir),
            paths_view(builtin_dirs@),
            opt_str_view(home),
            opt_str_view(codex_home),
        ),
{
    if let Some(p) = env_pets_dir {
        let mut v: Vec<String> = Vec::new();
        v.push(p);
        assert(paths_view(v@) =~= seq![p@]);
        return v;
    }
    let mut out = builtin_dirs;
    let ghost base = paths_view(out@);
    if let Some(h) = &home {
        let e = join_path(h.as_str(), ".eggs");
        out.push(join_path(e.as_str(), "pets"));
    }
    let ghost mid = paths_view(out@);
    assert(mid =~= base + (match opt_str_view(home) {
        Some(h) => seq![path_join(path_join(h, ".eggs"@), "pets"@)],
        None => Seq::<Seq<char>>::empty(),
    }));
    match codex_home {
        Some(c) => {
            out.push(join_path(c.as_str(), "pets"));
        },
        None => {
            if let Some(h) = &home {
                let e = join_path(h.as_str(), ".codex");
                out.push(join_path(e.as_str(), "pets"));
            }
        },
    }
    assert(paths_view(out@) =~= pets_dirs_spec(
        opt_str_view(env_pets_dir),
        base,
        opt_str_view(home),
        opt_str_view(codex_home),
    ));
    out
}

pub open spec fn opt_str_view(o: Option<String>) -> Option<Seq<char>> {
    match o {
        Some(s) => Some(s@),
        None => None,
    }
}

pub open spec fn pets_dirs_spec(
    env_pets_dir: Option<Seq<char>>,
    builtin_dirs: Seq<Seq<char>>,
    home: Option<Seq<char>>,
    codex_home: Option<Seq<char>>,
) -> Seq<Seq<char>> {
    match env_pets_dir {
        Some(p) => seq![p],
        None => {
            let eggs = match home {
                Some(h) => seq![path_join(path_join(h, ".eggs"@), "pets"@)],
                None => Seq::empty(),
            };
            let codex = match codex_home {
                Some(c) => seq![path_join(c, "pets"@)],
                None => match home {
                    Some(h) => seq![path_join(path_join(h, ".codex"@), "pets"@)],
                    None => Seq::empty(),
                },
            };
            builtin_dirs + eggs + codex
        },
    }
}

/// The search roots: each pets directory (built-in when it is one of the
/// built-in directories, installed otherwise), then the remote sprite cache
/// `<app dir>/remote`.
pub fn pet_roots(pets_dirs: Vec<String>, builtin_dirs: &Vec<String>, app_dir: &str) -> (r: Vec<
    PetRoot,
>)
    ensures
        r@.len() == pets_dirs@.len() + 1,
        forall|i: int|
            0 <= i < pets_dirs@.len() ==> (#[trigger] r@[i]).path == pets_dirs@[i] && r@[i].kind
                == (if paths_view(builtin_dirs@).contains(pets_dirs@[i]@) {
                PetRootKind::Builtin
            } else {
                PetRootKind::Installed
            }),
        r@.last().path@ == path_join(app_dir@, "remote"@),
        r@.last().kind == PetRootKind::RemoteCache,
{
    let mut out: Vec<PetRoot> = Vec::new();
    let mut dirs = pets_dirs;
    let ghost src = dirs@;
    let n = dirs.len();
    let mut i: usize = 0;
    while dirs.len() > 0
        invariant
            i + dirs@.len() == n,
            n == src.len(),
            dirs@ == src.skip(i as int),
            out@.len() == i,
            forall|k: int|
                0 <= k < i ==> (#[trigger] out@[k]).path == src[k] && out@[k].kind == (
                if paths_view(builtin_dirs@).contains(src[k]@) {
                    PetRootKind::Builtin
                } else {
                    PetRootKind::Installed
                }),
        decreases dirs.len(),
    {
        let path = dirs.remove(0);
        assert(path == src[i as int]);
        assert(dirs@ =~= src.skip(i + 1));
        let is_builtin = contains_path(builtin_dirs, path.as_str());
        let kind = if is_builtin {
            PetRootKind::Builtin
        } else {
            PetRootKind::Installed
        };
        out.push(PetRoot { path, kind });
        i += 1;
    }
    out.push(PetRoot { path: join_path(app_dir, "remote"), kind: PetRootKind::RemoteCache });
    out
}

/// Whether `path` is listed in `dirs`.
pub fn contains_path(dirs: &Vec<String>, path: &str) -> (r: bool)
    ensures
        r == paths_view(dirs@).contains(path@),
{
    let mut i: usize = 0;
    while i < dirs.len()
        invariant
            i <= dirs@.len(),
            forall|k: int| 0 <= k < i ==> dirs@[k]@ != path@,
        decreases dirs.len() - i,
    {
        if str_eq(dirs[i].as_str(), path) {
            assert(paths_view(dirs@)[i as int] == path@);
            return true;
        }
        i += 1;
    }
    false
}

/// The paths of the search roots, in order.
pub fn pet_search_dirs(roots: &Vec<PetRoot>) -> (r: Vec<String>)
    ensures
        r@.len() == roots@.len(),
        forall|i: int| 0 <= i < roots@.len() ==> (#[trigger] r@[i]) == roots@[i].path,
{
    let mut out: Vec<String> = Vec::new();
    let mut i: usize = 0;
    while i < roots.len()
        invariant
            i <= roots@.len(),
            out@.len() == i,
            forall|k: int| 0 <= k < i ==> (#[trigger] out@[k]) == roots@[k].path,
        decreases roots.len() - i,
    {
        out.push(roots[i].path.clone());
        i += 1;
    }
    out
}

/// Which of the pets directories are installed ones (not built-in).
pub open spec fn installed_flags(dirs: Seq<Seq<char>>, builtin: Seq<Seq<char>>) -> Seq<bool> {
    Seq::new(dirs.len(), |i: int| !builtin.contains(dirs[i]))
}

/// Where `eggs install` puts a pet: the first pets directory that is not a
/// built-in one (`~/.eggs/pets` by default, the override when
/// `EGGS_PETS_DIR` is set), or `pets` when there is none.
pub fn primary_pets_dir(pets_dirs: Vec<String>, builtin_dirs: &Vec<String>) -> (r: String)
    ensures
        r@ == (match first_true(installed_flags(paths_view(pets_dirs@), paths_view(builtin_dirs@))) {
            Some(k) => pets_dirs@[k]@,
            None => "pets"@,
        }),
{
    let ghost flags = installed_flags(paths_view(pets_dirs@), paths_view(builtin_dirs@));
    proof {
        lemma_paths_view(pets_dirs@);
    }
    let mut i: usize = 0;
    while i < pets_dirs.len()
        invariant
            i <= pets_dirs@.len(),
            flags == installed_flags(paths_view(pets_dirs@), paths_view(builtin_dirs@)),
            flags.len() == pets_dirs@.len(),
            forall|k: int| 0 <= k < pets_dirs@.len() ==> #[trigger] paths_view(pets_dirs@)[k]
                == pets_dirs@[k]@,
            forall|k: int| 0 <= k < i ==> !flags[k],
            first_true(flags) == first_true_from(flags, i as int),
        decreases pets_dirs.len() - i,
    {
        if !contains_path(builtin_dirs, pets_dirs[i].as_str()) {
            assert(flags[i as int]);
            return pets_dirs[i].clone();
        }
        assert(!flags[i as int]);
        i += 1;
    }
    owned("pets")
}

proof fn lemma_first_true_at(flags: Seq<bool>, j: int, n: int)
    requires
        0 <= j <= n < flags.len(),
        forall|k: int| j <= k < n ==> !flags[k],
        flags[n],
    ensures
        first_true_from(flags, j) == Some(n),
    decreases n - j,
{
    if j < n {
        lemma_first_true_at(flags, j + 1, n);
    }
}

/// Without `EGGS_PETS_DIR`, `eggs install` writes to `~/.eggs/pets` (the
/// directory the desktop searches right after the built-in ones), unless
/// that very directory is one of the built-in directories.
pub proof fn law_install_goes_to_eggs_pets(
    builtin: Seq<Seq<char>>,
    home: Seq<char>,
    codex_home: Option<Seq<char>>,
)
    requires
        !builtin.contains(path_join(path_join(home, ".eggs"@), "pets"@)),
    ensures
        ({
            let dirs = pets_dirs_spec(None, builtin, Some(home), codex_home);
            &&& first_true(installed_flags(dirs, builtin)) == Some(builtin.len() as int)
            &&& dirs[builtin.len() as int] == path_join(path_join(home, ".eggs"@), "pets"@)
        }),
{
    let dirs = pets_dirs_spec(None, builtin, Some(home), codex_home);
    let flags = installed_flags(dirs, builtin);
    let n = builtin.len() as int;
    assert(dirs[n] == path_join(path_join(home, ".eggs"@), "pets"@));
    assert forall|k: int| 0 <= k < n implies !flags[k] by {
        assert(dirs[k] == builtin[k]);
        assert(builtin.contains(builtin[k]));
    }
    lemma_first_true_at(flags, 0, n);
}

/// `s` with `p` appended unless it is already listed.
pub open spec fn push_unique_spec(s: Seq<Seq<char>>, p: Seq<char>) -> Seq<Seq<char>> {
    if s.contains(p) {
        s
    } else {
        s.push(p)
    }
}

/// The directories built-in pets are copied from when no override is set:
/// the source tree's `pets`, then `../../../pets`, `../../../../pets`,
/// `pets`, `../pets` and `../../pets` beside the executable, then
/// `desktop/pets` and `pets` under the working directory, each listed once.
pub open spec fn builtin_dirs_spec(source: Seq<char>, exe_dir: Option<Seq<char>>, cwd: Option<Seq<char>>) -> Seq<Seq<char>> {
    let s0 = seq![source];
    let s1 = match exe_dir {
        Some(e) => push_unique_spec(
            push_unique_spec(
                push_unique_spec(
                    push_unique_spec(
                        push_unique_spec(s0, path_join(e, "../../../pets"@)),
                        path_join(e, "../../../../pets"@),
                    ),
                    path_join(e, "pets"@),
                ),
                path_join(e, "../pets"@),
            ),
            path_join(e, "../../pets"@),
        ),
        None => s0,
    };
    match cwd {
        Some(c) => push_unique_spec(
            push_unique_spec(s1, path_join(path_join(c, "desktop"@), "pets"@)),
            path_join(c, "pets"@),
        ),
        None => s1,
    }
}

/// Where built-in pets are copied from: `EGGS_BUILTIN_PETS_DIR` alone when
/// it is set (nothing when it is empty); otherwise the source tree's
/// `pets`, five places around the executable, and two under the working
/// directory, each once.
pub fn builtin_source_dirs(
    env_dir: Option<String>,
    source_pets_dir: String,
    exe_dir: Option<String>,
    cwd: Option<String>,
) -> (r: Vec<String>)
    ensures
        env_dir matches Some(d) ==> paths_view(r@) == (if d@.len() > 0 {
            seq![d@]
        } else {
            Seq::<Seq<char>>::empty()
        }),
        env_dir is None ==> paths_view(r@) == builtin_dirs_spec(
            source_pets_dir@,
            opt_str_view(exe_dir),
            opt_str_view(cwd),
        ),
        env_dir is None ==> paths_view(r@).len() >= 1 && paths_view(r@)[0] == source_pets_dir@,
        forall|i: int, j: int|
            0 <= i < j < r@.len() ==> (#[trigger] r@[i])@ != (#[trigger] r@[j])@,
{
    let mut out: Vec<String> = Vec::new();
    if let Some(dir) = env_dir {
        if !dir.as_str().is_empty() {
            out.push(dir);
        }
        assert(paths_view(out@) =~= (if dir@.len() > 0 {
            seq![dir@]
        } else {
            Seq::<Seq<char>>::empty()
        }));
        return out;
    }
    push_unique_path(&mut out, source_pets_dir);
    proof {
        lemma_paths_view(out@);
    }
    assert(paths_view(out@) =~= seq![source_pets_dir@]);
    assert(paths_view(out@)[0] == source_pets_dir@);
    if let Some(e) = &exe_dir {
        push_unique_checked(&mut out, join_path(e.as_str(), "../../../pets"));
        push_unique_checked(&mut out, join_path(e.as_str(), "../../../../pets"));
        push_unique_checked(&mut out, join_path(e.as_str(), "pets"));
        push_unique_checked(&mut out, join_path(e.as_str(), "../pets"));
        push_unique_checked(&mut out, join_path(e.as_str(), "../../pets"));
    }
    if let Some(c) = &cwd {
        let d = join_path(c.as_str(), "desktop");
        push_unique_checked(&mut out, join_path(d.as_str(), "pets"));
        push_unique_checked(&mut out, join_path(c.as_str(), "pets"));
    }
    out
}

/// [`push_unique_path`] that also keeps the list free of repeats and its
/// first element.
fn push_unique_checked(out: &mut Vec<String>, path: String)
    requires
        old(out)@.len() >= 1,
        forall|i: int, j: int|
            0 <= i < j < old(out)@.len() ==> (#[trigger] old(out)@[i])@
                != (#[trigger] old(out)@[j])@,
    ensures
        paths_view(final(out)@) == (if paths_view(old(out)@).contains(path@) {
            paths_view(old(out)@)
        } else {
            paths_view(old(out)@).push(path@)
        }),
        final(out)@.len() >= 1,
        paths_view(final(out)@)[0] == paths_view(old(out)@)[0],
        forall|i: int, j: int|
            0 <= i < j < final(out)@.len() ==> (#[trigger] final(out)@[i])@
                != (#[trigger] final(out)@[j])@,
{
    let ghost pre = out@;
    push_unique_path(out, path);
    proof {
        lemma_paths_view(pre);
        lemma_paths_view(out@);
        let pv = paths_view(pre);
        let ov = paths_view(out@);
        assert forall|i: int, j: int|
            0 <= i < j < out@.len() implies (#[trigger] out@[i])@ != (#[trigger] out@[j])@ by {
            assert(ov[i] == out@[i]@);
            assert(ov[j] == out@[j]@);
            if pv.contains(path@) {
                assert(pv[i] == pre[i]@ && pv[j] == pre[j]@);
            } else if j == pre.len() {
                assert(pv[i] == pre[i]@);
                assert(ov[j] == path@);
            } else {
                assert(pv[i] == pre[i]@ && pv[j] == pre[j]@);
            }
        }
        assert(ov[0] == pv[0]);
    }
}

// ---------------------------------------------------------------------------
// manifest files
// ---------------------------------------------------------------------------

/// The manifest files of a pet directory, in the order they are tried: a
/// remote cache also accepts the older `sprite.json`.
pub fn manifest_paths_for(dir: &str, kind: PetRootKind) -> (r: Vec<String>)
    ensures
        paths_view(r@) == manifest_paths_spec(dir@, kind),
{
    let mut v: Vec<String> = Vec::new();
    v.push(join_path(dir, "pet.json"));
    match kind {
        PetRootKind::RemoteCache => {
            v.push(join_path(dir, "sprite.json"));
        },
        _ => {},
    }
    assert(paths_view(v@) =~= manifest_paths_spec(dir@, kind));
    v
}

pub open spec fn manifest_paths_spec(dir: Seq<char>, kind: PetRootKind) -> Seq<Seq<char>> {
    match kind {
        PetRootKind::RemoteCache => seq![
            path_join(dir, "pet.json"@),
            path_join(dir, "sprite.json"@),
        ],
        _ => seq![path_join(dir, "pet.json"@)],
    }
}

/// The first manifest file of a pet directory (`<dir>/pet.json`).
pub fn manifest_path_for(dir: &str, kind: PetRootKind) -> (r: String)
    ensures
        r@ == path_join(dir@, "pet.json"@),
{
    let mut v = manifest_paths_for(dir, kind);
    proof {
        lemma_paths_view(v@);
        match kind {
            PetRootKind::RemoteCache => {},
            _ => {},
        }
        assert(paths_view(v@)[0] == path_join(dir@, "pet.json"@));
    }
    v.swap_remove(0)
}

/// The spritesheet files tried for a manifest, in order: the path the
/// manifest names, then `sprite.webp`, `sprite.png`, `spritesheet.webp`,
/// `spritesheet.png`.
pub fn spritesheet_candidates(dir: &str, manifest: &PetManifest) -> (r: Vec<String>)
    ensures
        paths_view(r@) == spritesheet_candidates_spec(dir@, manifest.spritesheet_path@),
{
    let mut v: Vec<String> = Vec::new();
    v.push(join_path(dir, manifest.spritesheet_path.as_str()));
    v.push(join_path(dir, "sprite.webp"));
    v.push(join_path(dir, "sprite.png"));
    v.push(join_path(dir, "spritesheet.webp"));
    v.push(join_path(dir, "spritesheet.png"));
    assert(paths_view(v@) =~= spritesheet_candidates_spec(dir@, manifest.spritesheet_path@));
    v
}

pub open spec fn spritesheet_candidates_spec(dir: Seq<char>, sheet: Seq<char>) -> Seq<Seq<char>> {
    seq![
        path_join(dir, sheet),
        path_join(dir, "sprite.webp"@),
        path_join(dir, "sprite.png"@),
        path_join(dir, "spritesheet.webp"@),
        path_join(dir, "spritesheet.png"@),
    ]
}

/// The index of the first `true` flag.
pub open spec fn first_true(flags: Seq<bool>) -> Option<int> {
    first_true_from(flags, 0)
}

/// The first spritesheet candidate that exists (`exists[i]` says whether
/// candidate `i` of [`spritesheet_candidates`] exists).
pub fn resolve_spritesheet_path(dir: &str, manifest: &PetManifest, exists: &Vec<bool>) -> (r:
    Option<String>)
    requires
        exists@.len() == 5,
    ensures
        match first_true(exists@) {
            Some(i) => r matches Some(p) && p@ == spritesheet_candidates_spec(
                dir@,
                manifest.spritesheet_path@,
            )[i],
            None => r is None,
        },
{
    let mut cands = spritesheet_candidates(dir, manifest);
    let ghost cv = paths_view(cands@);
    proof {
        lemma_paths_view(cands@);
    }
    let mut i: usize = 0;
    while i < 5
        invariant
            i <= 5,
            exists@.len() == 5,
            cands@.len() == 5,
            cv == paths_view(cands@),
            cv == spritesheet_candidates_spec(dir@, manifest.spritesheet_path@),
            forall|k: int| 0 <= k < i ==> !exists@[k],
            first_true(exists@) == first_true_from(exists@, i as int),
        decreases 5 - i,
    {
        if exists[i] {
            assert(cv[i as int] == cands@[i as int]@);
            assert(first_true(exists@) == Some(i as int));
            let p = cands.swap_remove(i);
            assert(p@ == spritesheet_candidates_spec(dir@, manifest.spritesheet_path@)[i as int]);
            return Some(p);
        }
        i += 1;
    }
    None
}

/// [`first_true`] of the flags from position `k` on, as an index into the
/// whole sequence.
pub open spec fn first_true_from(flags: Seq<bool>, k: int) -> Option<int>
    decreases flags.len() - k,
{
    if k >= flags.len() || k < 0 {
        None
    } else if flags[k] {
        Some(k)
    } else {
        first_true_from(flags, k + 1)
    }
}

/// The index of the last `true` flag.
pub open spec fn last_true(flags: Seq<bool>) -> Option<int>
    decreases flags.len(),
{
    if flags.len() == 0 {
        None
    } else if flags.last() {
        Some(flags.len() - 1)
    } else {
        last_true(flags.drop_last())
    }
}

// ---------------------------------------------------------------------------
// animation states
// ---------------------------------------------------------------------------

/// The nine states every pet has.
pub open spec fn is_builtin_state(n: Seq<char>) -> bool {
    n == "idle"@ || n == "running-right"@ || n == "running-left"@ || n == "waving"@ || n
        == "jumping"@ || n == "failed"@ || n == "waiting"@ || n == "running"@ || n == "review"@
}

pub fn is_builtin_state_exec(n: &str) -> (r: bool)
    ensures
        r == is_builtin_state(n@),
{
    str_eq(n, "idle") || str_eq(n, "running-right") || str_eq(n, "running-left") || str_eq(
        n,
        "waving",
    ) || str_eq(n, "jumping") || str_eq(n, "failed") || str_eq(n, "waiting") || str_eq(
        n,
        "running",
    ) || str_eq(n, "review")
}

pub open spec fn trimmed_names(s: Seq<AnimationStateDef>) -> Seq<Seq<char>> {
    s.map_values(|d: AnimationStateDef| trim_seq(d.state@))
}

/// Custom states must have a name (after trimming) that is not a built-in
/// state and not the name of an earlier custom state.
pub open spec fn custom_states_valid(s: Seq<AnimationStateDef>) -> bool {
    forall|i: int|
        0 <= i < s.len() ==> {
            let n = #[trigger] trimmed_names(s)[i];
            &&& n.len() > 0
            &&& !is_builtin_state(n)
            &&& forall|j: int| 0 <= j < i ==> trimmed_names(s)[j] != n
        }
}

/// The hatch states kept: those with a name (after trimming) that no earlier
/// hatch state has.
pub open spec fn hatch_kept(s: Seq<AnimationStateDef>) -> Seq<AnimationStateDef>
    decreases s.len(),
{
    if s.len() == 0 {
        s
    } else {
        let pre = s.drop_last();
        let n = trim_seq(s.last().state@);
        if n.len() > 0 && !trimmed_names(pre).contains(n) {
            hatch_kept(pre).push(s.last())
        } else {
            hatch_kept(pre)
        }
    }
}

/// Whether `names` (as strings) lists `n`.
fn names_contain(names: &Vec<String>, n: &str) -> (r: bool)
    ensures
        r == paths_view(names@).contains(n@),
{
    contains_path(names, n)
}

/// Checks the custom states (the manifest is rejected when one is invalid,
/// see [`custom_states_valid`]) and drops the hatch states without a name or
/// with a repeated one. Returns whether the manifest is accepted; a rejected
/// manifest is left as it was.
pub fn sanitize_manifest_states(manifest: &mut PetManifest) -> (r: bool)
    ensures
        r == custom_states_valid(old(manifest).custom@),
        !r ==> *final(manifest) == *old(manifest),
        r ==> final(manifest).hatch@ == hatch_kept(old(manifest).hatch@),
        final(manifest).id == old(manifest).id,
        final(manifest).display_name == old(manifest).display_name,
        final(manifest).description == old(manifest).description,
        final(manifest).spritesheet_path == old(manifest).spritesheet_path,
        final(manifest).custom == old(manifest).custom,
        final(manifest).spritesheet_abs == old(manifest).spritesheet_abs,
        final(manifest).manifest_abs == old(manifest).manifest_abs,
        final(manifest).source_kind == old(manifest).source_kind,
{
    let ghost cs = manifest.custom@;
    let ghost tn = trimmed_names(cs);
    let mut seen: Vec<String> = Vec::new();
    let mut i: usize = 0;
    while i < manifest.custom.len()
        invariant
            i <= cs.len(),
            cs == manifest.custom@,
            tn == trimmed_names(cs),
            paths_view(seen@) == tn.take(i as int),
            forall|k: int|
                0 <= k < i ==> {
                    let n = #[trigger] tn[k];
                    &&& n.len() > 0
                    &&& !is_builtin_state(n)
                    &&& forall|j: int| 0 <= j < k ==> tn[j] != n
                },
        decreases cs.len() - i,
    {
        let name = trim(manifest.custom[i].state.as_str());
        assert(name@ == tn[i as int]);
        if name.as_str().is_empty() {
            return false;
        }
        if is_builtin_state_exec(name.as_str()) {
            return false;
        }
        if names_contain(&seen, name.as_str()) {
            proof {
                let k = choose|k: int| 0 <= k < paths_view(seen@).len() && #[trigger] paths_view(seen@)[k] == name@;
                assert(tn[k] == tn[i as int]);
            }
            return false;
        }
        let ghost before = paths_view(seen@);
        seen.push(name);
        proof {
            assert(paths_view(seen@) =~= before.push(tn[i as int]));
            assert(tn.take(i + 1) =~= tn.take(i as int).push(tn[i as int]));
            assert forall|j: int| 0 <= j < i implies tn[j] != tn[i as int] by {
                assert(tn.take(i as int)[j] == tn[j]);
            }
        }
        i += 1;
    }
    let mut rest: Vec<AnimationStateDef> = Vec::new();
    std::mem::swap(&mut rest, &mut manifest.hatch);
    let ghost hs = rest@;
    let n = rest.len();
    let mut kept: Vec<AnimationStateDef> = Vec::new();
    let mut hseen: Vec<String> = Vec::new();
    let mut k: usize = 0;
    while rest.len() > 0
        invariant
            k + rest@.len() == n,
            n == hs.len(),
            rest@ == hs.skip(k as int),
            kept@ == hatch_kept(hs.take(k as int)),
            forall|x: Seq<char>|
                paths_view(hseen@).contains(x) <==> (x.len() > 0 && trimmed_names(
                    hs.take(k as int),
                ).contains(x)),
        decreases rest.len(),
    {
        let d = rest.remove(0);
        assert(d == hs[k as int]);
        assert(rest@ =~= hs.skip(k + 1));
        let name = trim(d.state.as_str());
        let ghost pre = hs.take(k as int);
        proof {
            assert(hs.take(k + 1).drop_last() == pre);
            assert(hs.take(k + 1).last() == d);
            assert(trimmed_names(hs.take(k + 1)) =~= trimmed_names(pre).push(name@));
        }
        let dup = names_contain(&hseen, name.as_str());
        let ghost hv0 = paths_view(hseen@);
        let ghost nm = name@;
        let pushed = !name.as_str().is_empty() && !dup;
        if pushed {
            hseen.push(name);
            kept.push(d);
            assert(paths_view(hseen@) =~= hv0.push(nm));
        }
        proof {
            let t0 = trimmed_names(pre);
            let t1 = trimmed_names(hs.take(k + 1));
            assert(t1 =~= t0.push(nm));
            let hv1 = paths_view(hseen@);
            assert forall|x: Seq<char>| hv1.contains(x) <==> (x.len() > 0 && t1.contains(x)) by {
                assert(hv0.contains(x) <==> (x.len() > 0 && t0.contains(x)));
                if x == nm {
                    assert(t1[k as int] == x);
                }
                if t0.contains(x) {
                    let m = choose|m: int| 0 <= m < t0.len() && #[trigger] t0[m] == x;
                    assert(t1[m] == x);
                }
                if t1.contains(x) {
                    let m = choose|m: int| 0 <= m < t1.len() && #[trigger] t1[m] == x;
                    if m < k {
                        assert(t0[m] == x);
                    } else {
                        assert(x == nm);
                    }
                }
                if pushed {
                    if hv1.contains(x) {
                        let m = choose|m: int| 0 <= m < hv1.len() && #[trigger] hv1[m] == x;
                        if m < hv0.len() {
                            assert(hv0[m] == x);
                        }
                    }
                    if hv0.contains(x) {
                        let m = choose|m: int| 0 <= m < hv0.len() && #[trigger] hv0[m] == x;
                        assert(hv1[m] == x);
                    }
                    assert(hv1[hv0.len() as int] == nm);
                }
            }
        }
        k += 1;
    }
    assert(hs.take(n as int) == hs);
    manifest.hatch = kept;
    true
}

// ---------------------------------------------------------------------------
// loading a manifest from a pet directory
// ---------------------------------------------------------------------------

/// What was found at one manifest file of a pet directory: the manifest when
/// the file could be read and parsed, and for each spritesheet candidate of
/// that manifest (see [`spritesheet_candidates`]) whether it exists.
pub struct ManifestProbe {
    pub parsed: Option<PetManifest>,
    pub sheet_exists: Vec<bool>,
}

pub open spec fn probe_usable(p: ManifestProbe) -> bool {
    p.parsed is Some && custom_states_valid(p.parsed->0.custom@)
}

pub open spec fn usable_flags(probes: Seq<ManifestProbe>) -> Seq<bool> {
    probes.map_values(|p: ManifestProbe| probe_usable(p))
}

/// Which manifest file of a pet directory is used, and which spritesheet
/// candidate of it: the first manifest file that parses with valid custom
/// states (later files are not looked at), provided one of its spritesheets
/// exists.
pub open spec fn load_index(probes: Seq<ManifestProbe>) -> Option<(int, int)> {
    match first_true(usable_flags(probes)) {
        None => None,
        Some(k) => match first_true(probes[k].sheet_exists@) {
            None => None,
            Some(s) => Some((k, s)),
        },
    }
}

/// `lm` is the manifest loaded from manifest file `k` of `dir` with
/// spritesheet candidate `s`.
pub open spec fn loaded_manifest(
    dir: Seq<char>,
    kind: PetRootKind,
    requested_id: Option<Seq<char>>,
    probes: Seq<ManifestProbe>,
    k: int,
    s: int,
    lm: PetManifest,
) -> bool {
    let m = probes[k].parsed->0;
    &&& lm.id@ == (match requested_id {
        Some(id) => id,
        None => m.id@,
    })
    &&& lm.display_name == m.display_name
    &&& lm.description == m.description
    &&& lm.spritesheet_path == m.spritesheet_path
    &&& lm.custom == m.custom
    &&& lm.hatch@ == hatch_kept(m.hatch@)
    &&& lm.spritesheet_abs matches Some(a) && a@ == spritesheet_candidates_spec(
        dir,
        m.spritesheet_path@,
    )[s]
    &&& lm.manifest_abs matches Some(a) && a@ == manifest_paths_spec(dir, kind)[k]
    &&& lm.source_kind matches Some(a) && a@ == root_source_spec(kind)
}

/// What loading the pet directory `dir` gives: nothing when no manifest file
/// is usable or the usable one has no spritesheet; otherwise the loaded
/// manifest and its path.
pub open spec fn load_dir_spec(
    dir: Seq<char>,
    kind: PetRootKind,
    requested_id: Option<Seq<char>>,
    probes: Seq<ManifestProbe>,
    r: Option<(PetManifest, String)>,
) -> bool {
    match load_index(probes) {
        None => r is None,
        Some((k, s)) => r matches Some((lm, lp)) && lp@ == manifest_paths_spec(dir, kind)[k]
            && loaded_manifest(dir, kind, requested_id, probes, k, s, lm),
    }
}

/// Loads the manifest of the pet directory `dir` from what was found at its
/// manifest files (`probes`, in the order of [`manifest_paths_for`]). A
/// remote cache entry is renamed to `requested_id`. Returns the manifest,
/// with its spritesheet, manifest path and source filled in, and the
/// manifest path.
pub fn load_manifest_from_dir(
    dir: &str,
    kind: PetRootKind,
    requested_id: Option<&str>,
    probes: Vec<ManifestProbe>,
) -> (r: Option<(PetManifest, String)>)
    requires
        probes@.len() == (if kind == PetRootKind::RemoteCache {
            2int
        } else {
            1int
        }),
        forall|i: int|
            0 <= i < probes@.len() ==> (#[trigger] probes@[i]).parsed is Some ==> probes@[i].sheet_exists@.len()
                == 5,
    ensures
        load_dir_spec(
            dir@,
            kind,
            match requested_id {
                Some(id) => Some(id@),
                None => None,
            },
            probes@,
            r,
        ),
{
    let paths = manifest_paths_for(dir, kind);
    let ghost pv = paths_view(paths@);
    proof {
        lemma_paths_view(paths@);
    }
    let ghost ps = probes@;
    let ghost flags = usable_flags(ps);
    let mut rest = probes;
    let n = rest.len();
    let mut i: usize = 0;
    while rest.len() > 0
        invariant
            i + rest@.len() == n,
            n == ps.len(),
            paths@.len() == n,
            pv == paths_view(paths@),
            rest@ == ps.skip(i as int),
            flags == usable_flags(ps),
            ps == probes@,
            pv == manifest_paths_spec(dir@, kind),
            forall|j: int|
                0 <= j < ps.len() ==> (#[trigger] ps[j]).parsed is Some ==> ps[j].sheet_exists@.len()
                    == 5,
            forall|j: int| 0 <= j < i ==> !flags[j],
            first_true(flags) == first_true_from(flags, i as int),
        decreases rest.len(),
    {
        let probe = rest.remove(0);
        assert(probe == ps[i as int]);
        assert(rest@ =~= ps.skip(i + 1));
        match probe.parsed {
            None => {},
            Some(m) => {
                let mut m = m;
                let ghost m0 = m;
                if sanitize_manifest_states(&mut m) {
                    assert(flags[i as int]);
                    assert(first_true(flags) == Some(i as int));
                    match requested_id {
                        Some(id) => {
                            m.id = owned(id);
                        },
                        None => {},
                    }
                    let sheet = resolve_spritesheet_path(dir, &m, &probe.sheet_exists);
                    match sheet {
                        None => {
                            return None;
                        },
                        Some(sp) => {
                            let path = paths[i].clone();
                            assert(path@ == pv[i as int]);
                            m.spritesheet_abs = Some(sp);
                            m.manifest_abs = Some(path.clone());
                            m.source_kind = Some(owned(source_kind_for_root(kind)));
                            return Some((m, path));
                        },
                    }
                }
            },
        }
        assert(!flags[i as int]);
        i += 1;
    }
    None
}

// ---------------------------------------------------------------------------
// loading a pet by id
// ---------------------------------------------------------------------------

/// What was found under one search root when a pet is looked up by id:
/// whether `<root>/<id>` exists, what was found at its manifest files (see
/// [`ManifestProbe`]), and whether `<root>/<id>/pet.json` exists.
pub struct RootProbe {
    pub dir_exists: bool,
    pub manifests: Vec<ManifestProbe>,
    pub manifest_exists: bool,
}

/// Why a pet could not be loaded.
#[derive(Debug, Clone, PartialEq, Eq)]
pub enum PetLoadError {
    /// The manifest at this path exists but could not be used.
    InvalidManifest(String),
    /// No search root has the pet.
    NotFound,
}

/// A probe of a pet directory found under a root of kind `kind` has one
/// entry per manifest file and, for each parsed manifest, one flag per
/// spritesheet candidate.
pub open spec fn manifest_probes_wf(kind: PetRootKind, probes: Seq<ManifestProbe>) -> bool {
    &&& probes.len() == manifest_paths_spec(Seq::empty(), kind).len()
    &&& forall|i: int|
        0 <= i < probes.len() ==> (#[trigger] probes[i]).parsed is Some
            ==> probes[i].sheet_exists@.len() == 5
}

pub open spec fn root_probe_wf(kind: PetRootKind, p: RootProbe) -> bool {
    p.dir_exists ==> manifest_probes_wf(kind, p.manifests@)
}

/// A remote cache entry is loaded under the id it is cached as.
pub open spec fn requested_for(kind: PetRootKind, id: Seq<char>) -> Option<Seq<char>> {
    if kind == PetRootKind::RemoteCache {
        Some(id)
    } else {
        None
    }
}

/// A root is looked at when the pet's directory exists under it and, when a
/// source is asked for, the root has that source.
pub open spec fn root_considered(root: PetRoot, source: Option<Seq<char>>, p: RootProbe) -> bool {
    &&& p.dir_exists
    &&& match source {
        Some(src) => root_source_spec(root.kind) == src,
        None => true,
    }
}

pub open spec fn loads_flags(
    roots: Seq<PetRoot>,
    source: Option<Seq<char>>,
    probes: Seq<RootProbe>,
) -> Seq<bool> {
    Seq::new(
        roots.len(),
        |i: int| root_considered(roots[i], source, probes[i]) && load_index(probes[i].manifests@) is Some,
    )
}

pub open spec fn invalid_flags(
    roots: Seq<PetRoot>,
    source: Option<Seq<char>>,
    probes: Seq<RootProbe>,
) -> Seq<bool> {
    Seq::new(roots.len(), |i: int| root_considered(roots[i], source, probes[i]) && probes[i].manifest_exists)
}

/// Loading pet `id`: the first root that yields a manifest gives it; when
/// none does, the error names the manifest of the last root whose manifest
/// exists but could not be used, or says the pet was not found.
pub open spec fn load_roots_spec(
    id: Seq<char>,
    source: Option<Seq<char>>,
    roots: Seq<PetRoot>,
    probes: Seq<RootProbe>,
    r: Result<PetManifest, PetLoadError>,
) -> bool {
    match first_true(loads_flags(roots, source, probes)) {
        Some(j) => {
            let ks = load_index(probes[j].manifests@)->0;
            r matches Ok(m) && loaded_manifest(
                path_join(roots[j].path@, id),
                roots[j].kind,
                requested_for(roots[j].kind, id),
                probes[j].manifests@,
                ks.0,
                ks.1,
                m,
            )
        },
        None => match last_true(invalid_flags(roots, source, probes)) {
            Some(j) => r matches Err(PetLoadError::InvalidManifest(p)) && p@ == path_join(
                path_join(roots[j].path@, id),
                "pet.json"@,
            ),
            None => r matches Err(PetLoadError::NotFound),
        },
    }
}

pub open spec fn opt_source(s: Option<&str>) -> Option<Seq<char>> {
    match s {
        Some(x) => Some(x@),
        None => None,
    }
}

fn load_from_roots(
    id: &str,
    source: Option<&str>,
    roots: &Vec<PetRoot>,
    probes: Vec<RootProbe>,
) -> (r: Result<PetManifest, PetLoadError>)
    requires
        probes@.len() == roots@.len(),
        forall|i: int| 0 <= i < probes@.len() ==> root_probe_wf(roots@[i].kind, #[trigger] probes@[i]),
    ensures
        load_roots_spec(id@, opt_source(source), roots@, probes@, r),
{
    let ghost src = opt_source(source);
    let ghost ps = probes@;
    let ghost lf = loads_flags(roots@, src, ps);
    let ghost inf = invalid_flags(roots@, src, ps);
    let mut last_err: Option<String> = None;
    let mut rest = probes;
    let n = rest.len();
    let mut i: usize = 0;
    while rest.len() > 0
        invariant
            i + rest@.len() == n,
            n == ps.len(),
            ps == probes@,
            roots@.len() == n,
            rest@ == ps.skip(i as int),
            src == opt_source(source),
            lf == loads_flags(roots@, src, ps),
            inf == invalid_flags(roots@, src, ps),
            forall|j: int| 0 <= j < n ==> root_probe_wf(roots@[j].kind, #[trigger] ps[j]),
            forall|j: int| 0 <= j < i ==> !lf[j],
            first_true(lf) == first_true_from(lf, i as int),
            match last_true(inf.take(i as int)) {
                Some(j) => last_err matches Some(p) && p@ == path_join(
                    path_join(roots@[j].path@, id@),
                    "pet.json"@,
                ),
                None => last_err is None,
            },
        decreases rest.len(),
    {
        let probe = rest.remove(0);
        assert(probe == ps[i as int]);
        assert(rest@ =~= ps.skip(i + 1));
        let root = &roots[i];
        let wanted = match source {
            Some(sk) => str_eq(source_kind_for_root(root.kind), sk),
            None => true,
        };
        let considered = probe.dir_exists && wanted;
        assert(considered == root_considered(roots@[i as int], src, ps[i as int]));
        let ghost prefix = inf.take(i as int);
        if considered {
            let pet_dir = join_path(root.path.as_str(), id);
            let req = if root.kind == PetRootKind::RemoteCache {
                Some(id)
            } else {
                None
            };
            let exists = probe.manifest_exists;
            match load_manifest_from_dir(pet_dir.as_str(), root.kind, req, probe.manifests) {
                Some((m, _)) => {
                    assert(lf[i as int]);
                    assert(first_true(lf) == Some(i as int));
                    return Ok(m);
                },
                None => {
                    if exists {
                        last_err = Some(manifest_path_for(pet_dir.as_str(), root.kind));
                    }
                },
            }
        }
        proof {
            assert(inf.take(i + 1).drop_last() =~= prefix);
            assert(inf.take(i + 1).last() == inf[i as int]);
        }
        i += 1;
    }
    assert(inf.take(n as int) =~= inf);
    match last_err {
        Some(p) => Err(PetLoadError::InvalidManifest(p)),
        None => Err(PetLoadError::NotFound),
    }
}

/// Loads pet `id` from the search roots in order (see [`load_roots_spec`]);
/// `probes[i]` is what was found under `roots[i]`.
pub fn load_pet(id: &str, roots: &Vec<PetRoot>, probes: Vec<RootProbe>) -> (r: Result<
    PetManifest,
    PetLoadError,
>)
    requires
        probes@.len() == roots@.len(),
        forall|i: int| 0 <= i < probes@.len() ==> root_probe_wf(roots@[i].kind, #[trigger] probes@[i]),
    ensures
        load_roots_spec(id@, None, roots@, probes@, r),
{
    load_from_roots(id, None, roots, probes)
}

/// Loads pet `id` from the roots whose source (`builtin`, `local` or
/// `remote`) is `source_kind` only.
pub fn load_pet_exact(
    id: &str,
    source_kind: &str,
    roots: &Vec<PetRoot>,
    probes: Vec<RootProbe>,
) -> (r: Result<PetManifest, PetLoadError>)
    requires
        probes@.len() == roots@.len(),
        forall|i: int| 0 <= i < probes@.len() ==> root_probe_wf(roots@[i].kind, #[trigger] probes@[i]),
    ensures
        load_roots_spec(id@, Some(source_kind@), roots@, probes@, r),
{
    load_from_roots(id, Some(source_kind), roots, probes)
}

// ---------------------------------------------------------------------------
// the installed pets
// ---------------------------------------------------------------------------

/// A pet directory found under a search root (for the remote cache, a cached
/// sprite id): its name and what was found at its manifest files.
pub struct EntryProbe {
    pub name: String,
    pub manifests: Vec<ManifestProbe>,
}

/// What a search root holds: whether it exists, and its pet directories in
/// the order they are listed.
pub struct RootListing {
    pub exists: bool,
    pub entries: Vec<EntryProbe>,
}

pub struct PetInfoV {
    pub id: Seq<char>,
    pub display_name: Seq<char>,
    pub manifest_path: Seq<char>,
    pub remote: bool,
    pub builtin: bool,
}

impl View for PetInfo {
    type V = PetInfoV;

    open spec fn view(&self) -> PetInfoV {
        PetInfoV {
            id: self.id@,
            display_name: self.display_name@,
            manifest_path: self.manifest_path@,
            remote: self.remote,
            builtin: self.builtin,
        }
    }
}

pub open spec fn infos_view(s: Seq<PetInfo>) -> Seq<PetInfoV> {
    s.map_values(|p: PetInfo| p@)
}

pub open spec fn listing_wf(root: PetRoot, l: RootListing) -> bool {
    l.exists ==> forall|i: int|
        0 <= i < l.entries@.len() ==> manifest_probes_wf(
            root.kind,
            (#[trigger] l.entries@[i]).manifests@,
        )
}

/// The pet an entry of a root contributes, if its directory loads.
pub open spec fn entry_info(root: PetRoot, e: EntryProbe) -> Option<PetInfoV> {
    match load_index(e.manifests@) {
        None => None,
        Some((k, s)) => {
            let m = e.manifests@[k].parsed->0;
            let dir = path_join(root.path@, e.name@);
            Some(
                PetInfoV {
                    id: match requested_for(root.kind, e.name@) {
                        Some(id) => id,
                        None => m.id@,
                    },
                    display_name: m.display_name@,
                    manifest_path: manifest_paths_spec(dir, root.kind)[k],
                    remote: root.kind == PetRootKind::RemoteCache,
                    builtin: root.kind == PetRootKind::Builtin,
                },
            )
        },
    }
}

/// The pets the first `n` entries of a root contribute, in order.
pub open spec fn entry_infos(root: PetRoot, entries: Seq<EntryProbe>, n: int) -> Seq<PetInfoV>
    decreases n,
{
    if n <= 0 {
        Seq::empty()
    } else {
        let pre = entry_infos(root, entries, n - 1);
        match entry_info(root, entries[n - 1]) {
            Some(p) => pre.push(p),
            None => pre,
        }
    }
}

/// The pets the first `n` roots contribute, in order (a root that does not
/// exist contributes none).
pub open spec fn root_infos(roots: Seq<PetRoot>, listings: Seq<RootListing>, n: int) -> Seq<
    PetInfoV,
>
    decreases n,
{
    if n <= 0 {
        Seq::empty()
    } else {
        let l = listings[n - 1];
        root_infos(roots, listings, n - 1) + (if l.exists {
            entry_infos(roots[n - 1], l.entries@, l.entries@.len() as int)
        } else {
            Seq::empty()
        })
    }
}

pub open spec fn info_ids(s: Seq<PetInfoV>) -> Seq<Seq<char>> {
    s.map_values(|p: PetInfoV| p.id)
}

/// The first pet of each id, in order: a pet in a root of higher priority
/// hides one with the same id further on.
pub open spec fn first_of_each_id(s: Seq<PetInfoV>) -> Seq<PetInfoV>
    decreases s.len(),
{
    if s.len() == 0 {
        s
    } else {
        let pre = s.drop_last();
        if info_ids(pre).contains(s.last().id) {
            first_of_each_id(pre)
        } else {
            first_of_each_id(pre).push(s.last())
        }
    }
}

/// The order of the pet list: local and built-in pets before remote ones,
/// then by id.
pub open spec fn pet_order_lt(a: PetInfoV, b: PetInfoV) -> bool {
    (!a.remote && b.remote) || (a.remote == b.remote && lex_lt(a.id, b.id))
}

pub open spec fn pets_sorted(s: Seq<PetInfoV>) -> bool {
    forall|i: int, j: int| 0 <= i < j < s.len() ==> pet_order_lt(#[trigger] s[i], #[trigger] s[j])
}

pub open spec fn ids_unique(s: Seq<PetInfoV>) -> bool {
    forall|i: int, j: int| 0 <= i < j < s.len() ==> (#[trigger] s[i]).id != (#[trigger] s[j]).id
}

fn pet_info_from(m: PetManifest, manifest_path: String, kind: PetRootKind) -> (r: PetInfo)
    ensures
        r.id == m.id,
        r.display_name == m.display_name,
        r.manifest_path == manifest_path,
        r.remote == (kind == PetRootKind::RemoteCache),
        r.builtin == (kind == PetRootKind::Builtin),
{
    PetInfo {
        id: m.id,
        display_name: m.display_name,
        manifest_path,
        remote: kind == PetRootKind::RemoteCache,
        builtin: kind == PetRootKind::Builtin,
    }
}

/// Every pet that loads, root by root and entry by entry (before dropping
/// repeated ids).
fn gather_pets(roots: &Vec<PetRoot>, listings: Vec<RootListing>) -> (r: Vec<PetInfo>)
    requires
        listings@.len() == roots@.len(),
        forall|i: int| 0 <= i < roots@.len() ==> listing_wf(roots@[i], #[trigger] listings@[i]),
    ensures
        infos_view(r@) == root_infos(roots@, listings@, roots@.len() as int),
{
    let ghost ls = listings@;
    let mut out: Vec<PetInfo> = Vec::new();
    let mut rest = listings;
    let n = rest.len();
    let mut i: usize = 0;
    while rest.len() > 0
        invariant
            i + rest@.len() == n,
            n == ls.len(),
            roots@.len() == n,
            rest@ == ls.skip(i as int),
            forall|j: int| 0 <= j < n ==> listing_wf(roots@[j], #[trigger] ls[j]),
            infos_view(out@) == root_infos(roots@, ls, i as int),
        decreases rest.len(),
    {
        let listing = rest.remove(0);
        assert(listing == ls[i as int]);
        assert(rest@ =~= ls.skip(i + 1));
        let root = &roots[i];
        let ghost before = infos_view(out@);
        if listing.exists {
            let ghost es = listing.entries@;
            let mut entries = listing.entries;
            let m = entries.len();
            let mut k: usize = 0;
            while entries.len() > 0
                invariant
                    k + entries@.len() == m,
                    m == es.len(),
                    entries@ == es.skip(k as int),
                    root == roots@[i as int],
                    forall|j: int|
                        0 <= j < es.len() ==> manifest_probes_wf(
                            root.kind,
                            (#[trigger] es[j]).manifests@,
                        ),
                    infos_view(out@) == before + entry_infos(*root, es, k as int),
                decreases entries.len(),
            {
                let e = entries.remove(0);
                assert(e == es[k as int]);
                assert(entries@ =~= es.skip(k + 1));
                let dir = join_path(root.path.as_str(), e.name.as_str());
                let req = if root.kind == PetRootKind::RemoteCache {
                    Some(e.name.as_str())
                } else {
                    None
                };
                let ghost pre = infos_view(out@);
                match load_manifest_from_dir(dir.as_str(), root.kind, req, e.manifests) {
                    Some((m, path)) => {
                        out.push(pet_info_from(m, path, root.kind));
                        assert(infos_view(out@) =~= pre.push(out@.last()@));
                    },
                    None => {},
                }
                assert(infos_view(out@) =~= before + entry_infos(*root, es, k + 1));
                k += 1;
            }
            assert(es.len() == m);
        }
        assert(infos_view(out@) =~= root_infos(roots@, ls, i + 1));
        i += 1;
    }
    out
}

/// Keeps the first pet of each id.
fn first_of_each(pets: Vec<PetInfo>) -> (r: Vec<PetInfo>)
    ensures
        infos_view(r@) == first_of_each_id(infos_view(pets@)),
{
    let ghost src = infos_view(pets@);
    let mut out: Vec<PetInfo> = Vec::new();
    let mut seen: Vec<String> = Vec::new();
    let mut rest = pets;
    let n = rest.len();
    let mut i: usize = 0;
    while rest.len() > 0
        invariant
            i + rest@.len() == n,
            n == src.len(),
            infos_view(rest@) == src.skip(i as int),
            infos_view(out@) == first_of_each_id(src.take(i as int)),
            paths_view(seen@) == info_ids(src.take(i as int)),
        decreases rest.len(),
    {
        let ghost rv = infos_view(rest@);
        let ghost rs = rest@;
        let p = rest.remove(0);
        proof {
            assert(rv[0] == rs[0]@);
            assert(infos_view(rest@) =~= rv.drop_first());
            assert(rv.drop_first() =~= src.skip(i + 1));
        }
        assert(p@ == rv[0]);
        let ghost t0 = src.take(i as int);
        let ghost t1 = src.take(i + 1);
        proof {
            assert(t1.drop_last() =~= t0);
            assert(t1.last() == p@);
        }
        let dup = contains_path(&seen, p.id.as_str());
        let ghost sv = paths_view(seen@);
        seen.push(p.id.clone());
        proof {
            assert(paths_view(seen@) =~= sv.push(p@.id));
            assert(info_ids(t1) =~= info_ids(t0).push(p@.id));
        }
        if !dup {
            let ghost ov = infos_view(out@);
            out.push(p);
            assert(infos_view(out@) =~= ov.push(t1.last()));
        }
        i += 1;
    }
    assert(src.take(n as int) =~= src);
    out
}

proof fn lemma_order_total(a: PetInfoV, b: PetInfoV)
    ensures
        a.id != b.id ==> pet_order_lt(a, b) || pet_order_lt(b, a),
        !(pet_order_lt(a, b) && pet_order_lt(b, a)),
{
    lemma_lex_total(a.id, b.id);
}

proof fn lemma_order_trans(a: PetInfoV, b: PetInfoV, c: PetInfoV)
    requires
        pet_order_lt(a, b),
        pet_order_lt(b, c),
    ensures
        pet_order_lt(a, c),
{
    if a.remote == b.remote && b.remote == c.remote {
        lemma_lex_trans(a.id, b.id, c.id);
    }
}

fn pet_order_lt_exec(a: &PetInfo, b: &PetInfo) -> (r: bool)
    ensures
        r == pet_order_lt(a@, b@),
{
    if a.remote != b.remote {
        !a.remote
    } else {
        lex_lt_exec(a.id.as_str(), b.id.as_str())
    }
}

/// Inserts `x` into a sorted list where no pet has its id.
fn insert_pet_sorted(v: &mut Vec<PetInfo>, x: PetInfo)
    requires
        pets_sorted(infos_view(old(v)@)),
        !info_ids(infos_view(old(v)@)).contains(x@.id),
    ensures
        pets_sorted(infos_view(final(v)@)),
        infos_view(final(v)@).len() == infos_view(old(v)@).len() + 1,
        forall|q: PetInfoV|
            infos_view(final(v)@).contains(q) <==> (infos_view(old(v)@).contains(q) || q == x@),
{
    let ghost pre = infos_view(v@);
    let mut p: usize = 0;
    while p < v.len() && pet_order_lt_exec(&v[p], &x)
        invariant
            p <= v@.len(),
            pre == infos_view(v@),
            forall|k: int| 0 <= k < p ==> pet_order_lt(#[trigger] pre[k], x@),
        decreases v.len() - p,
    {
        p += 1;
    }
    proof {
        if p < pre.len() {
            lemma_order_total(pre[p as int], x@);
            assert(info_ids(pre)[p as int] == pre[p as int].id);
        }
    }
    let ghost xv = x@;
    v.insert(p, x);
    let ghost post = infos_view(v@);
    proof {
        assert(post =~= pre.insert(p as int, xv));
        assert forall|i: int, j: int| 0 <= i < j < post.len() implies pet_order_lt(
            #[trigger] post[i],
            #[trigger] post[j],
        ) by {
            if j < p {
                assert(post[i] == pre[i] && post[j] == pre[j]);
            } else if j == p {
                assert(post[i] == pre[i]);
            } else if i == p {
                assert(post[j] == pre[j - 1]);
                if j - 1 > p {
                    assert(pet_order_lt(pre[p as int], pre[j - 1]));
                    lemma_order_trans(xv, pre[p as int], pre[j - 1]);
                }
            } else if i < p {
                assert(post[i] == pre[i] && post[j] == pre[j - 1]);
            } else {
                assert(post[i] == pre[i - 1] && post[j] == pre[j - 1]);
            }
        }
        assert forall|q: PetInfoV| post.contains(q) <==> (pre.contains(q) || q == xv) by {
            if post.contains(q) {
                let k = choose|k: int| 0 <= k < post.len() && post[k] == q;
                if k < p {
                    assert(pre[k] == q);
                } else if k > p {
                    assert(pre[k - 1] == q);
                }
            }
            if pre.contains(q) {
                let k = choose|k: int| 0 <= k < pre.len() && pre[k] == q;
                if k < p {
                    assert(post[k] == q);
                } else {
                    assert(post[k + 1] == q);
                }
            }
            if q == xv {
                assert(post[p as int] == q);
            }
        }
    }
}

/// Sorts pets with distinct ids by [`pet_order_lt`].
fn sort_pets(pets: Vec<PetInfo>) -> (r: Vec<PetInfo>)
    requires
        ids_unique(infos_view(pets@)),
    ensures
        pets_sorted(infos_view(r@)),
        infos_view(r@).len() == infos_view(pets@).len(),
        forall|q: PetInfoV| infos_view(r@).contains(q) <==> infos_view(pets@).contains(q),
{
    let ghost src = infos_view(pets@);
    let mut out: Vec<PetInfo> = Vec::new();
    let mut rest = pets;
    let n = rest.len();
    let mut i: usize = 0;
    while rest.len() > 0
        invariant
            i + rest@.len() == n,
            n == src.len(),
            ids_unique(src),
            infos_view(rest@) == src.skip(i as int),
            pets_sorted(infos_view(out@)),
            infos_view(out@).len() == i,
            forall|q: PetInfoV| infos_view(out@).contains(q) <==> src.take(i as int).contains(q),
        decreases rest.len(),
    {
        let ghost rv = infos_view(rest@);
        let ghost rs = rest@;
        let p = rest.remove(0);
        proof {
            assert(rv[0] == rs[0]@);
            assert(infos_view(rest@) =~= rv.drop_first());
            assert(rv.drop_first() =~= src.skip(i + 1));
        }
        assert(p@ == src[i as int]);
        let ghost ov = infos_view(out@);
        proof {
            if info_ids(ov).contains(p@.id) {
                let k = choose|k: int| 0 <= k < ov.len() && #[trigger] info_ids(ov)[k] == p@.id;
                assert(ov.contains(ov[k]));
                assert(src.take(i as int).contains(ov[k]));
                let j = choose|j: int| 0 <= j < i && #[trigger] src.take(i as int)[j] == ov[k];
                assert(src[j] == ov[k]);
                assert(false);
            }
        }
        insert_pet_sorted(&mut out, p);
        proof {
            let t1 = src.take(i + 1);
            let t0 = src.take(i as int);
            assert forall|q: PetInfoV| infos_view(out@).contains(q) <==> t1.contains(q) by {
                if t0.contains(q) {
                    let j = choose|j: int| 0 <= j < t0.len() && t0[j] == q;
                    assert(t1[j] == q);
                }
                if t1.contains(q) {
                    let j = choose|j: int| 0 <= j < t1.len() && t1[j] == q;
                    if j < i {
                        assert(t0[j] == q);
                    }
                }
                assert(t1[i as int] == src[i as int]);
            }
        }
        i += 1;
    }
    assert(src.take(n as int) =~= src);
    out
}

proof fn lemma_ids_push(s: Seq<PetInfoV>, c: PetInfoV)
    ensures
        info_ids(s.push(c)) =~= info_ids(s).push(c.id),
{
}

/// Keeping the first pet of each id leaves one pet per id, and every id.
pub proof fn lemma_first_of_each(s: Seq<PetInfoV>)
    ensures
        ids_unique(first_of_each_id(s)),
        forall|x: Seq<char>|
            info_ids(first_of_each_id(s)).contains(x) <==> #[trigger] info_ids(s).contains(x),
    decreases s.len(),
{
    if s.len() > 0 {
        let pre = s.drop_last();
        let c = s.last();
        lemma_first_of_each(pre);
        let d = first_of_each_id(pre);
        assert(s =~= pre.push(c));
        lemma_ids_push(pre, c);
        let is = info_ids(s);
        let ip = info_ids(pre);
        assert forall|x: Seq<char>| is.contains(x) <==> (ip.contains(x) || x == c.id) by {
            if is.contains(x) {
                let k = choose|k: int| 0 <= k < is.len() && is[k] == x;
                if k < ip.len() {
                    assert(ip[k] == x);
                }
            }
            if ip.contains(x) {
                let k = choose|k: int| 0 <= k < ip.len() && ip[k] == x;
                assert(is[k] == x);
            }
            if x == c.id {
                assert(is[ip.len() as int] == x);
            }
        }
        if !ip.contains(c.id) {
            lemma_ids_push(d, c);
            let dd = d.push(c);
            let id = info_ids(d);
            let idd = info_ids(dd);
            assert(!id.contains(c.id));
            assert forall|i: int, j: int| 0 <= i < j < dd.len() implies (#[trigger] dd[i]).id != (
            #[trigger] dd[j]).id by {
                if j == d.len() {
                    assert(id[i] == dd[i].id);
                } else {
                    assert(dd[i] == d[i] && dd[j] == d[j]);
                }
            }
            assert forall|x: Seq<char>| idd.contains(x) <==> is.contains(x) by {
                if idd.contains(x) {
                    let k = choose|k: int| 0 <= k < idd.len() && idd[k] == x;
                    if k < id.len() {
                        assert(id[k] == x);
                    }
                }
                if id.contains(x) {
                    let k = choose|k: int| 0 <= k < id.len() && id[k] == x;
                    assert(idd[k] == x);
                }
                if x == c.id {
                    assert(idd[id.len() as int] == x);
                }
            }
        }
    }
}

/// The installed pets: every pet directory of every existing search root
/// (`listings[i]` is what `roots[i]` holds) that loads, the first of each id
/// only (roots come in priority order), sorted with local and built-in pets
/// first, then by id.
pub fn list_installed_pets(roots: &Vec<PetRoot>, listings: Vec<RootListing>) -> (r: Vec<PetInfo>)
    requires
        listings@.len() == roots@.len(),
        forall|i: int| 0 <= i < roots@.len() ==> listing_wf(roots@[i], #[trigger] listings@[i]),
    ensures
        pets_sorted(infos_view(r@)),
        infos_view(r@).len() == first_of_each_id(
            root_infos(roots@, listings@, roots@.len() as int),
        ).len(),
        forall|q: PetInfoV|
            infos_view(r@).contains(q) <==> first_of_each_id(
                root_infos(roots@, listings@, roots@.len() as int),
            ).contains(q),
{
    let all = gather_pets(roots, listings);
    let firsts = first_of_each(all);
    proof {
        lemma_first_of_each(infos_view(all@));
    }
    sort_pets(firsts)
}

pub open spec fn pet_key_le(a: PetInfoV, b: PetInfoV) -> bool {
    priority_of(a) < priority_of(b) || (priority_of(a) == priority_of(b) && !lex_lt(b.id, a.id))
}

pub open spec fn priority_of(p: PetInfoV) -> int {
    if p.builtin {
        0
    } else if p.remote {
        2
    } else {
        1
    }
}

/// The pet started when none is chosen: the one with the best priority
/// (built-in, then local, then remote) and, among those, the least id; the
/// first such pet when several tie.
pub fn first_available_pet_info(pets: Vec<PetInfo>) -> (r: Option<PetInfo>)
    ensures
        pets@.len() == 0 ==> r is None,
        pets@.len() > 0 ==> exists|j: int|
            0 <= j < pets@.len() && r == Some(pets@[j]) && (forall|k: int|
                0 <= k < pets@.len() ==> pet_key_le(pets@[j]@, #[trigger] pets@[k]@)) && (forall|
                k: int,
            | 0 <= k < j ==> !pet_key_le(#[trigger] pets@[k]@, pets@[j]@)),
{
    if pets.len() == 0 {
        return None;
    }
    let ghost ps = pets@;
    let mut best: usize = 0;
    let mut i: usize = 1;
    proof {
        lemma_lex_irrefl(ps[0]@.id);
    }
    while i < pets.len()
        invariant
            ps == pets@,
            1 <= i <= ps.len(),
            best < i,
            forall|k: int| 0 <= k < i ==> pet_key_le(ps[best as int]@, #[trigger] ps[k]@),
            forall|k: int| 0 <= k < best ==> !pet_key_le(#[trigger] ps[k]@, ps[best as int]@),
        decreases ps.len() - i,
    {
        let pa = pet_priority(&pets[i]);
        let pb = pet_priority(&pets[best]);
        let better = pa < pb || (pa == pb && lex_lt_exec(pets[i].id.as_str(), pets[best].id.as_str()));
        proof {
            lemma_lex_total(ps[i as int]@.id, ps[best as int]@.id);
            lemma_lex_irrefl(ps[i as int]@.id);
        }
        if better {
            proof {
                assert forall|k: int| 0 <= k <= i implies pet_key_le(
                    ps[i as int]@,
                    #[trigger] ps[k]@,
                ) by {
                    if k < i {
                        assert(pet_key_le(ps[best as int]@, ps[k]@));
                        lemma_lex_total(ps[k]@.id, ps[best as int]@.id);
                        if lex_lt(ps[k]@.id, ps[i as int]@.id) && priority_of(ps[i as int]@)
                            == priority_of(ps[best as int]@) {
                            lemma_lex_trans(ps[k]@.id, ps[i as int]@.id, ps[best as int]@.id);
                        }
                    }
                }
                assert forall|k: int| 0 <= k < i implies !pet_key_le(
                    #[trigger] ps[k]@,
                    ps[i as int]@,
                ) by {
                    assert(pet_key_le(ps[best as int]@, ps[k]@));
                    lemma_lex_total(ps[k]@.id, ps[best as int]@.id);
                    lemma_lex_total(ps[k]@.id, ps[i as int]@.id);
                    if lex_lt(ps[best as int]@.id, ps[k]@.id) && priority_of(ps[i as int]@)
                        == priority_of(ps[best as int]@) {
                        lemma_lex_trans(ps[i as int]@.id, ps[best as int]@.id, ps[k]@.id);
                    }
                }
            }
            best = i;
        }
        i += 1;
    }
    let mut v = pets;
    Some(v.swap_remove(best))
}

/// The source (`builtin`, `local` or `remote`) of the first listed pet with
/// id `id`.
pub fn preferred_source_for_pet(id: &str, pets: &Vec<PetInfo>) -> (r: Option<String>)
    ensures
        match first_true(Seq::new(pets@.len(), |i: int| pets@[i].id@ == id@)) {
            Some(j) => r matches Some(s) && s@ == source_kind_spec(pets@[j].builtin, pets@[j].remote),
            None => r is None,
        },
{
    let ghost flags = Seq::new(pets@.len(), |i: int| pets@[i].id@ == id@);
    let mut i: usize = 0;
    while i < pets.len()
        invariant
            i <= pets@.len(),
            flags == Seq::new(pets@.len(), |i: int| pets@[i].id@ == id@),
            forall|k: int| 0 <= k < i ==> !flags[k],
            first_true(flags) == first_true_from(flags, i as int),
        decreases pets.len() - i,
    {
        if str_eq(pets[i].id.as_str(), id) {
            assert(first_true(flags) == Some(i as int));
            return Some(owned(pets[i].source_kind()));
        }
        i += 1;
    }
    None
}

/// Every loadable pet directory of an installed or built-in root is named
/// after the id in its manifest.
pub open spec fn dirs_named_by_id(root: PetRoot, l: RootListing) -> bool {
    (l.exists && root.kind != PetRootKind::RemoteCache) ==> forall|j: int|
        0 <= j < l.entries@.len() ==> match load_index((#[trigger] l.entries@[j]).manifests@) {
            Some(ks) => l.entries@[j].manifests@[ks.0].parsed->0.id@ == l.entries@[j].name@,
            None => true,
        }
}

/// What was found at `<root>/<id>` is what the root's listing shows under
/// the name `id`: the directory exists exactly when the listing has such an
/// entry, with the same manifest files.
pub open spec fn probe_agrees(l: RootListing, id: Seq<char>, p: RootProbe) -> bool {
    &&& p.dir_exists <==> (l.exists && exists|j: int|
        0 <= j < l.entries@.len() && (#[trigger] l.entries@[j]).name@ == id)
    &&& forall|j: int|
        l.exists && 0 <= j < l.entries@.len() && (#[trigger] l.entries@[j]).name@ == id
            ==> p.manifests@ == l.entries@[j].manifests@
}

proof fn lemma_first_of_each_within(s: Seq<PetInfoV>, q: PetInfoV)
    requires
        first_of_each_id(s).contains(q),
    ensures
        s.contains(q),
    decreases s.len(),
{
    if s.len() > 0 {
        let pre = s.drop_last();
        assert(s =~= pre.push(s.last()));
        if first_of_each_id(pre).contains(q) {
            lemma_first_of_each_within(pre, q);
            let k = choose|k: int| 0 <= k < pre.len() && pre[k] == q;
            assert(s[k] == q);
        } else {
            assert(q == s.last());
            assert(s[s.len() - 1] == q);
        }
    }
}

proof fn lemma_entry_infos_member(root: PetRoot, entries: Seq<EntryProbe>, n: int, q: PetInfoV) -> (j:
    int)
    requires
        n <= entries.len(),
        entry_infos(root, entries, n).contains(q),
    ensures
        0 <= j < n,
        entry_info(root, entries[j]) == Some(q),
    decreases n,
{
    let pre = entry_infos(root, entries, n - 1);
    if pre.contains(q) {
        lemma_entry_infos_member(root, entries, n - 1, q)
    } else {
        let k = choose|k: int| 0 <= k < entry_infos(root, entries, n).len() && entry_infos(
            root,
            entries,
            n,
        )[k] == q;
        match entry_info(root, entries[n - 1]) {
            Some(p) => {
                if k < pre.len() {
                    assert(pre[k] == q);
                }
            },
            None => {
                assert(pre[k] == q);
            },
        }
        n - 1
    }
}

proof fn lemma_root_infos_member(
    roots: Seq<PetRoot>,
    listings: Seq<RootListing>,
    n: int,
    q: PetInfoV,
) -> (w: (int, int))
    requires
        n <= listings.len(),
        root_infos(roots, listings, n).contains(q),
    ensures
        0 <= w.0 < n,
        listings[w.0].exists,
        0 <= w.1 < listings[w.0].entries@.len(),
        entry_info(roots[w.0], listings[w.0].entries@[w.1]) == Some(q),
    decreases n,
{
    let pre = root_infos(roots, listings, n - 1);
    let l = listings[n - 1];
    let tail = if l.exists {
        entry_infos(roots[n - 1], l.entries@, l.entries@.len() as int)
    } else {
        Seq::empty()
    };
    assert(root_infos(roots, listings, n) == pre + tail);
    let k = choose|k: int| 0 <= k < (pre + tail).len() && (pre + tail)[k] == q;
    if k < pre.len() {
        assert(pre[k] == q);
        lemma_root_infos_member(roots, listings, n - 1, q)
    } else {
        assert(tail[k - pre.len()] == q);
        assert(l.exists);
        let j = lemma_entry_infos_member(roots[n - 1], l.entries@, l.entries@.len() as int, q);
        (n - 1, j)
    }
}

proof fn lemma_first_true_found(flags: Seq<bool>, k: int, i: int)
    requires
        0 <= k <= i < flags.len(),
        flags[i],
    ensures
        first_true_from(flags, k) matches Some(j) && k <= j <= i && flags[j],
    decreases i - k,
{
    if !flags[k] {
        lemma_first_true_found(flags, k + 1, i);
    }
}

/// A listed pet loads from the source it is listed with. Given what the
/// search roots list (`listings`) and what is found at `<root>/<id>` for the
/// id of a listed pet `q` (`probes`, agreeing with the listings), and with
/// every pet directory of an installed or built-in root named after its
/// manifest's id: loading `q`'s id from `q`'s source (the one
/// [`preferred_source_for_pet`] names for it) gives a manifest with that id
/// and that source.
pub proof fn law_listed_pet_loads_from_its_source(
    roots: Seq<PetRoot>,
    listings: Seq<RootListing>,
    probes: Seq<RootProbe>,
    q: PetInfoV,
    r: Result<PetManifest, PetLoadError>,
)
    requires
        listings.len() == roots.len(),
        probes.len() == roots.len(),
        forall|i: int| 0 <= i < roots.len() ==> dirs_named_by_id(roots[i], #[trigger] listings[i]),
        forall|i: int| 0 <= i < roots.len() ==> probe_agrees(#[trigger] listings[i], q.id, probes[i]),
        first_of_each_id(root_infos(roots, listings, roots.len() as int)).contains(q),
        load_roots_spec(q.id, Some(source_kind_spec(q.builtin, q.remote)), roots, probes, r),
    ensures
        r is Ok,
        match r {
            Ok(m) => m.id@ == q.id && (m.source_kind matches Some(s) && s@ == source_kind_spec(
                q.builtin,
                q.remote,
            )),
            Err(_) => false,
        },
{
    let src = source_kind_spec(q.builtin, q.remote);
    lemma_first_of_each_within(root_infos(roots, listings, roots.len() as int), q);
    let (i, j) = lemma_root_infos_member(roots, listings, roots.len() as int, q);
    let e = listings[i].entries@[j];
    let ks = load_index(e.manifests@)->0;
    assert(dirs_named_by_id(roots[i], listings[i]));
    assert(q.id == e.name@);
    assert(probe_agrees(listings[i], q.id, probes[i]));
    assert(probes[i].dir_exists);
    assert(probes[i].manifests@ == e.manifests@);
    assert(root_source_spec(roots[i].kind) == src);
    let lf = loads_flags(roots, Some(src), probes);
    assert(lf[i]);
    lemma_first_true_found(lf, 0, i);
    let j0 = first_true(lf)->0;
    assert(lf[j0]);
    let p0 = probes[j0];
    assert(root_considered(roots[j0], Some(src), p0));
    assert(probe_agrees(listings[j0], q.id, p0));
    let e0i = choose|x: int|
        0 <= x < listings[j0].entries@.len() && (#[trigger] listings[j0].entries@[x]).name@ == q.id;
    let e0 = listings[j0].entries@[e0i];
    assert(p0.manifests@ == e0.manifests@);
    assert(dirs_named_by_id(roots[j0], listings[j0]));
}

// ---------------------------------------------------------------------------
// syncing the built-in pets
// ---------------------------------------------------------------------------

/// A built-in pet as loaded from a source directory.
pub struct LoadedV {
    pub id: Seq<char>,
    pub manifest_path: Seq<char>,
    pub sheet: Option<Seq<char>>,
}

pub open spec fn loaded_view(s: Seq<(PetManifest, String)>) -> Seq<LoadedV> {
    s.map_values(
        |l: (PetManifest, String)|
            LoadedV {
                id: l.0.id@,
                manifest_path: l.1@,
                sheet: match l.0.spritesheet_abs {
                    Some(x) => Some(x@),
                    None => None,
                },
            },
    )
}

pub open spec fn loaded_ids(s: Seq<LoadedV>) -> Seq<Seq<char>> {
    s.map_values(|l: LoadedV| l.id)
}

/// The first pet of each id: a source directory of higher priority wins.
pub open spec fn first_loaded(s: Seq<LoadedV>) -> Seq<LoadedV>
    decreases s.len(),
{
    if s.len() == 0 {
        s
    } else if loaded_ids(s.drop_last()).contains(s.last().id) {
        first_loaded(s.drop_last())
    } else {
        first_loaded(s.drop_last()).push(s.last())
    }
}

/// What is copied for one built-in pet: its manifest to
/// `<sync dir>/<id>/pet.json` and its spritesheet next to it under the same
/// file name. A pet without a spritesheet, or whose spritesheet path has no
/// file name, cannot be synced (the error says which).
pub struct BuiltinCopy {
    pub id: String,
    pub manifest_src: String,
    pub manifest_dst: String,
    pub sheet: Result<(String, String), String>,
}

pub open spec fn copy_ok(sync_dir: Seq<char>, l: LoadedV, c: BuiltinCopy) -> bool {
    let dest = path_join(sync_dir, l.id);
    &&& c.id@ == l.id
    &&& c.manifest_src@ == l.manifest_path
    &&& c.manifest_dst@ == path_join(dest, "pet.json"@)
    &&& match l.sheet {
        None => c.sheet matches Err(e) && e@ == "builtin spritesheet missing"@,
        Some(src) => match crate::upload::path_file_name(src) {
            None => c.sheet matches Err(e) && e@ == "builtin spritesheet missing filename"@,
            Some(name) => c.sheet matches Ok((a, b)) && a@ == src && b@ == path_join(dest, name),
        },
    }
}

/// The plan of a sync: the copies, and the directories of the sync
/// directory to remove (those of no built-in pet).
pub struct BuiltinSyncPlan {
    pub copies: Vec<BuiltinCopy>,
    pub removals: Vec<String>,
}

fn builtin_copy(sync_dir: &str, m: &PetManifest, manifest_path: &String) -> (r: BuiltinCopy)
    ensures
        copy_ok(
            sync_dir@,
            LoadedV {
                id: m.id@,
                manifest_path: manifest_path@,
                sheet: match m.spritesheet_abs {
                    Some(x) => Some(x@),
                    None => None,
                },
            },
            r,
        ),
{
    let dest = join_path(sync_dir, m.id.as_str());
    let sheet = match &m.spritesheet_abs {
        None => Err(owned("builtin spritesheet missing")),
        Some(src) => match crate::upload::file_name_of(src.as_str()) {
            None => Err(owned("builtin spritesheet missing filename")),
            Some(name) => Ok((src.clone(), join_path(dest.as_str(), name.as_str()))),
        },
    };
    BuiltinCopy {
        id: m.id.clone(),
        manifest_src: manifest_path.clone(),
        manifest_dst: join_path(dest.as_str(), "pet.json"),
        sheet,
    }
}

/// The sync of the built-in pets into `sync_dir`: `loaded` are the pets
/// loaded from the source directories in priority order, `existing` the
/// names of the directories already in `sync_dir`.
pub fn builtin_sync_plan(
    sync_dir: &str,
    loaded: &Vec<(PetManifest, String)>,
    existing: &Vec<String>,
) -> (r: BuiltinSyncPlan)
    ensures
        r.copies@.len() == first_loaded(loaded_view(loaded@)).len(),
        forall|i: int|
            0 <= i < r.copies@.len() ==> copy_ok(
                sync_dir@,
                first_loaded(loaded_view(loaded@))[i],
                #[trigger] r.copies@[i],
            ),
        paths_view(r.removals@) == paths_view(existing@).filter(
            |n: Seq<char>| !loaded_ids(loaded_view(loaded@)).contains(n),
        ),
{
    let ghost lv = loaded_view(loaded@);
    let mut copies: Vec<BuiltinCopy> = Vec::new();
    let mut ids: Vec<String> = Vec::new();
    let mut i: usize = 0;
    while i < loaded.len()
        invariant
            i <= loaded@.len(),
            lv == loaded_view(loaded@),
            copies@.len() == first_loaded(lv.take(i as int)).len(),
            forall|k: int|
                0 <= k < copies@.len() ==> copy_ok(
                    sync_dir@,
                    first_loaded(lv.take(i as int))[k],
                    #[trigger] copies@[k],
                ),
            paths_view(ids@) == loaded_ids(lv.take(i as int)),
        decreases loaded.len() - i,
    {
        let ghost t0 = lv.take(i as int);
        let ghost t1 = lv.take(i + 1);
        proof {
            assert(t1.drop_last() =~= t0);
            assert(t1.last() == lv[i as int]);
            assert(loaded_ids(t1) =~= loaded_ids(t0).push(lv[i as int].id));
        }
        let (m, path) = (&loaded[i].0, &loaded[i].1);
        let seen = contains_path(&ids, m.id.as_str());
        let ghost iv = paths_view(ids@);
        ids.push(m.id.clone());
        assert(paths_view(ids@) =~= iv.push(m.id@));
        if !seen {
            let ghost before = copies@;
            copies.push(builtin_copy(sync_dir, m, path));
            proof {
                assert forall|k: int|
                    0 <= k < copies@.len() implies copy_ok(
                        sync_dir@,
                        first_loaded(t1)[k],
                        #[trigger] copies@[k],
                    ) by {
                    if k < before.len() {
                        assert(copies@[k] == before[k]);
                    }
                }
            }
        }
        i += 1;
    }
    assert(lv.take(lv.len() as int) =~= lv);
    let ghost ev = paths_view(existing@);
    let mut removals: Vec<String> = Vec::new();
    let mut j: usize = 0;
    while j < existing.len()
        invariant
            j <= existing@.len(),
            ev == paths_view(existing@),
            paths_view(ids@) == loaded_ids(lv),
            paths_view(removals@) == ev.take(j as int).filter(
                |n: Seq<char>| !loaded_ids(lv).contains(n),
            ),
        decreases existing.len() - j,
    {
        let ghost t0 = ev.take(j as int);
        proof {
            assert(ev.take(j + 1) =~= t0.push(ev[j as int]));
            t0.lemma_filter_push(ev[j as int], |n: Seq<char>| !loaded_ids(lv).contains(n));
            assert(ev[j as int] == existing@[j as int]@);
        }
        if !contains_path(&ids, existing[j].as_str()) {
            let ghost before = paths_view(removals@);
            removals.push(existing[j].clone());
            assert(paths_view(removals@) =~= before.push(ev[j as int]));
        }
        j += 1;
    }
    assert(ev.take(ev.len() as int) =~= ev);
    BuiltinSyncPlan { copies, removals }
}

/// A file is copied over its destination unless the destination exists
/// with the same SHA-256 digest.
pub fn needs_copy(dest_exists: bool, src_bytes: &[u8], dest_bytes: &[u8]) -> (r: bool)
    ensures
        r == (!dest_exists || crate::upload::hex_bytes(crate::upload::sha256(src_bytes@))
            != crate::upload::hex_bytes(crate::upload::sha256(dest_bytes@))),
{
    if !dest_exists {
        return true;
    }
    let a = crate::upload::sha256_hex(src_bytes);
    let b = crate::upload::sha256_hex(dest_bytes);
    !str_eq(a.as_str(), b.as_str())
}

/// The list of installed pets has one entry per id: a pet found again in a
/// root of lower priority is not listed twice.
pub proof fn law_installed_pets_one_per_id(found: Seq<PetInfoV>, listed: Seq<PetInfoV>)
    requires
        pets_sorted(listed),
        forall|q: PetInfoV| listed.contains(q) <==> first_of_each_id(found).contains(q),
    ensures
        ids_unique(listed),
{
    lemma_first_of_each(found);
    let d = first_of_each_id(found);
    assert forall|i: int, j: int| 0 <= i < j < listed.len() implies (#[trigger] listed[i]).id != (
    #[trigger] listed[j]).id by {
        assert(listed.contains(listed[i]));
        assert(listed.contains(listed[j]));
        let a = choose|a: int| 0 <= a < d.len() && d[a] == listed[i];
        let b = choose|b: int| 0 <= b < d.len() && d[b] == listed[j];
        if listed[i].id == listed[j].id {
            if a < b {
                assert(d[a].id != d[b].id);
            } else if b < a {
                assert(d[b].id != d[a].id);
            }
            assert(listed[i] == listed[j]);
            assert(pet_order_lt(listed[i], listed[j]));
            lemma_lex_irrefl(listed[i].id);
        }
    }
}

} // verus!

